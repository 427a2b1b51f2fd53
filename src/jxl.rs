//! Recognising JPEG XL files by name.
use vstd::prelude::*;
use crate::image_processing::{eq_ignore_ascii_case, extension_of, path_extension, same_ignoring_ascii_case};

verus! {

/// Whether `ext`, in any case, is "jxl".
pub fn is_jxl_extension(ext: &str) -> (r: bool)
    ensures
        r == same_ignoring_ascii_case(ext@, "jxl"@),
{
    eq_ignore_ascii_case(ext, "jxl")
}

/// Whether `path` names a JPEG XL file: its extension is "jxl" in any case.
/// Only the name is looked at, not the contents.
pub fn is_jxl_file(path: &str) -> (r: bool)
    ensures
        r == (path_extension(path@).is_some() && same_ignoring_ascii_case(
            path_extension(path@).unwrap(),
            "jxl"@,
        )),
{
    match extension_of(path) {
        Some(ext) => is_jxl_extension(ext.as_str()),
        None => false,
    }
}

} // verus!
