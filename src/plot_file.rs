//! Defaults and value conversions of the JSON plot description read by the
//! command-line tool.
use vstd::prelude::*;
use crate::image_processing::{eq_ignore_ascii_case, same_ignoring_ascii_case};
use crate::xyplot::LabelAlignment;

verus! {

/// Alignment used where the file names none.
pub fn default_alignment() -> (r: String)
    ensures
        r@ == "center"@,
{
    String::from_str("center")
}

/// Top padding used where the file gives none.
pub fn default_top_padding() -> (r: i32)
    ensures
        r == 60,
{
    60
}

/// Left padding used where the file gives none.
pub fn default_left_padding() -> (r: i32)
    ensures
        r == 60,
{
    60
}

/// The alignment a name stands for: "start" or "end" in any case, anything
/// else centred.
pub open spec fn alignment_named(s: Seq<char>) -> LabelAlignment {
    if same_ignoring_ascii_case(s, "start"@) {
        LabelAlignment::Start
    } else if same_ignoring_ascii_case(s, "end"@) {
        LabelAlignment::End
    } else {
        LabelAlignment::Center
    }
}

/// Reads an alignment name.
pub fn string_to_alignment(s: &str) -> (r: LabelAlignment)
    ensures
        r == alignment_named(s@),
{
    if eq_ignore_ascii_case(s, "start") {
        LabelAlignment::Start
    } else if eq_ignore_ascii_case(s, "end") {
        LabelAlignment::End
    } else {
        LabelAlignment::Center
    }
}

} // verus!
