//! Recognising image files by their first bytes and their extension, and the
//! pixel passes behind transparency and letterbox removal.
use vstd::prelude::*;

verus! {

/// An image format recognised from a file's first bytes.
#[derive(Debug, Clone, Copy, PartialEq, Eq, Structural)]
pub enum DetectedImageFormat {
    /// JPEG: starts FF D8 FF.
    Jpeg,
    /// PNG: starts 89 50 4E 47 0D 0A 1A 0A.
    Png,
    /// WebP: "RIFF", four bytes of size, "WEBP".
    WebP,
    /// JPEG XL: starts FF 0A.
    Jxl,
}

/// The standard extension of a format.
pub open spec fn standard_extension(format: DetectedImageFormat) -> Seq<char> {
    match format {
        DetectedImageFormat::Jpeg => "jpeg"@,
        DetectedImageFormat::Png => "png"@,
        DetectedImageFormat::WebP => "webp"@,
        DetectedImageFormat::Jxl => "jxl"@,
    }
}

/// Every extension a file of the format may carry.
pub open spec fn valid_extensions(format: DetectedImageFormat) -> Seq<Seq<char>> {
    match format {
        DetectedImageFormat::Jpeg => seq!["jpg"@, "jpeg"@],
        DetectedImageFormat::Png => seq!["png"@],
        DetectedImageFormat::WebP => seq!["webp"@],
        DetectedImageFormat::Jxl => seq!["jxl"@],
    }
}

impl DetectedImageFormat {
    /// The standard file extension of this format.
    pub fn extension(&self) -> (r: &'static str)
        ensures
            r@ == standard_extension(*self),
    {
        match self {
            DetectedImageFormat::Jpeg => "jpeg",
            DetectedImageFormat::Png => "png",
            DetectedImageFormat::WebP => "webp",
            DetectedImageFormat::Jxl => "jxl",
        }
    }

    /// All file extensions a file of this format may carry.
    pub fn all_extensions(&self) -> (r: Vec<&'static str>)
        ensures
            r@.map_values(|e: &'static str| e@) == valid_extensions(*self),
    {
        let r = match self {
            DetectedImageFormat::Jpeg => vec!["jpg", "jpeg"],
            DetectedImageFormat::Png => vec!["png"],
            DetectedImageFormat::WebP => vec!["webp"],
            DetectedImageFormat::Jxl => vec!["jxl"],
        };
        assert(r@.map_values(|e: &'static str| e@) =~= valid_extensions(*self));
        r
    }
}

/// The format that the twelve leading bytes `b` of a file announce, if any.
pub open spec fn format_of_header(b: Seq<u8>) -> Option<DetectedImageFormat> {
    if b[0] == 0xFF && b[1] == 0xD8 && b[2] == 0xFF {
        Some(DetectedImageFormat::Jpeg)
    } else if b[0] == 0x89 && b[1] == 0x50 && b[2] == 0x4E && b[3] == 0x47 && b[4] == 0x0D && b[5]
        == 0x0A && b[6] == 0x1A && b[7] == 0x0A {
        Some(DetectedImageFormat::Png)
    } else if b[0] == 0x52 && b[1] == 0x49 && b[2] == 0x46 && b[3] == 0x46 && b[8] == 0x57 && b[9]
        == 0x45 && b[10] == 0x42 && b[11] == 0x50 {
        Some(DetectedImageFormat::WebP)
    } else if b[0] == 0xFF && b[1] == 0x0A {
        Some(DetectedImageFormat::Jxl)
    } else {
        None
    }
}

/// Recognises an image format from the first twelve bytes of a file.
pub fn detect_image_format(buffer: &[u8; 12]) -> (r: Option<DetectedImageFormat>)
    ensures
        r == format_of_header(buffer@),
{
    let b = buffer;
    if b[0] == 0xFF && b[1] == 0xD8 && b[2] == 0xFF {
        Some(DetectedImageFormat::Jpeg)
    } else if b[0] == 0x89 && b[1] == 0x50 && b[2] == 0x4E && b[3] == 0x47 && b[4] == 0x0D && b[5]
        == 0x0A && b[6] == 0x1A && b[7] == 0x0A {
        Some(DetectedImageFormat::Png)
    } else if b[0] == 0x52 && b[1] == 0x49 && b[2] == 0x46 && b[3] == 0x46 && b[8] == 0x57 && b[9]
        == 0x45 && b[10] == 0x42 && b[11] == 0x50 {
        Some(DetectedImageFormat::WebP)
    } else if b[0] == 0xFF && b[1] == 0x0A {
        Some(DetectedImageFormat::Jxl)
    } else {
        None
    }
}

/// The code of `c` with ASCII capitals mapped to small letters.
pub open spec fn ascii_folded(c: char) -> int {
    if 'A' <= c && c <= 'Z' {
        c as int + 32
    } else {
        c as int
    }
}

/// `a` and `b` are equal but for the case of ASCII letters.
pub open spec fn same_ignoring_ascii_case(a: Seq<char>, b: Seq<char>) -> bool {
    a.len() == b.len() && forall|i: int| 0 <= i < a.len() ==> ascii_folded(a[i]) == ascii_folded(b[i])
}

/// Whether `a` and `b` are equal but for the case of ASCII letters.
pub fn eq_ignore_ascii_case(a: &str, b: &str) -> (r: bool)
    ensures
        r == same_ignoring_ascii_case(a@, b@),
{
    let n = a.unicode_len();
    if n != b.unicode_len() {
        return false;
    }
    let mut i: usize = 0;
    while i < n
        invariant
            n == a@.len(),
            n == b@.len(),
            i <= n,
            forall|j: int| 0 <= j < i ==> ascii_folded(a@[j]) == ascii_folded(b@[j]),
        decreases n - i,
    {
        let x = a.get_char(i);
        let y = b.get_char(i);
        let fx: u32 = if 'A' <= x && x <= 'Z' {
            x as u32 + 32
        } else {
            x as u32
        };
        let fy: u32 = if 'A' <= y && y <= 'Z' {
            y as u32 + 32
        } else {
            y as u32
        };
        if fx != fy {
            return false;
        }
        i = i + 1;
    }
    true
}

/// Whether `ext`, in any case, is one of the image extensions handled here.
pub open spec fn is_image_extension(ext: Seq<char>) -> bool {
    same_ignoring_ascii_case(ext, "jpg"@) || same_ignoring_ascii_case(ext, "jpeg"@)
        || same_ignoring_ascii_case(ext, "png"@) || same_ignoring_ascii_case(ext, "jxl"@)
        || same_ignoring_ascii_case(ext, "webp"@)
}

/// Whether `ext`, in any case, is jpg, jpeg, png, jxl or webp.
pub fn is_supported_extension(ext: &str) -> (r: bool)
    ensures
        r == is_image_extension(ext@),
{
    eq_ignore_ascii_case(ext, "jpg") || eq_ignore_ascii_case(ext, "jpeg") || eq_ignore_ascii_case(
        ext,
        "png",
    ) || eq_ignore_ascii_case(ext, "jxl") || eq_ignore_ascii_case(ext, "webp")
}

/// Whether a file named with extension `ext` claims the format its bytes show:
/// "jpg" claims JPEG; every other extension claims the format of that name.
pub fn extension_matches_format(ext: &str, format: DetectedImageFormat) -> (r: bool)
    ensures
        r == (same_ignoring_ascii_case(ext@, standard_extension(format)) || (format
            == DetectedImageFormat::Jpeg && same_ignoring_ascii_case(ext@, "jpg"@))),
{
    eq_ignore_ascii_case(ext, format.extension()) || (format == DetectedImageFormat::Jpeg
        && eq_ignore_ascii_case(ext, "jpg"))
}

/// The extension of the file named by `path`, as std's `Path::extension` finds it.
pub uninterp spec fn path_extension(path: Seq<char>) -> Option<Seq<char>>;

/// Relies on std's `Path::extension`: the part of the file name after its
/// last '.', where the name has one that is not its first character; a path
/// made from a `str` gives back text, so `to_str` cannot fail.
#[verifier::external_body]
pub(crate) fn extension_of(path: &str) -> (r: Option<String>)
    ensures
        r.is_some() == path_extension(path@).is_some(),
        r.is_some() ==> r.unwrap()@ == path_extension(path@).unwrap(),
{
    std::path::Path::new(path).extension().and_then(|e| e.to_str()).map(|e| e.to_owned())
}

/// Whether `path` names a file with one of the image extensions handled here, in any case.
pub fn has_supported_extension(path: &str) -> (r: bool)
    ensures
        r == (path_extension(path@).is_some() && is_image_extension(path_extension(path@).unwrap())),
{
    match extension_of(path) {
        Some(ext) => is_supported_extension(ext.as_str()),
        None => false,
    }
}

/// Whether the extension of `path` claims `format`, the format its bytes show.
pub fn path_claims_format(path: &str, format: DetectedImageFormat) -> (r: bool)
    ensures
        r == (path_extension(path@).is_some() && ({
            let ext = path_extension(path@).unwrap();
            same_ignoring_ascii_case(ext, standard_extension(format)) || (format
                == DetectedImageFormat::Jpeg && same_ignoring_ascii_case(ext, "jpg"@))
        })),
{
    match extension_of(path) {
        Some(ext) => extension_matches_format(ext.as_str(), format),
        None => false,
    }
}

/// Whether byte `i` of an RGBA buffer `data` belongs to a fully transparent pixel.
pub open spec fn in_transparent_pixel(data: Seq<u8>, i: int) -> bool {
    data[i - i % 4 + 3] == 0
}

/// Makes every fully transparent pixel of the RGBA buffer `pixels` opaque black;
/// other pixels are left as they are.
pub fn clear_transparent_pixels(pixels: &mut Vec<u8>)
    requires
        old(pixels)@.len() % 4 == 0,
    ensures
        final(pixels)@.len() == old(pixels)@.len(),
        forall|i: int|
            0 <= i < old(pixels)@.len() ==> #[trigger] final(pixels)@[i] == if in_transparent_pixel(
                old(pixels)@,
                i,
            ) {
                if i % 4 == 3 {
                    255u8
                } else {
                    0u8
                }
            } else {
                old(pixels)@[i]
            },
{
    let ghost before = pixels@;
    let n = pixels.len();
    let mut k: usize = 0;
    while k < n
        invariant
            n == pixels@.len(),
            n == before.len(),
            n % 4 == 0,
            k % 4 == 0,
            k <= n,
            forall|i: int|
                0 <= i < n ==> #[trigger] pixels@[i] == if i < k && in_transparent_pixel(before, i) {
                    if i % 4 == 3 {
                        255u8
                    } else {
                        0u8
                    }
                } else {
                    before[i]
                },
        decreases n - k,
    {
        if pixels[k + 3] == 0 {
            pixels[k] = 0;
            pixels[k + 1] = 0;
            pixels[k + 2] = 0;
            pixels[k + 3] = 255;
        }
        k = k + 4;
    }
}

/// Whether pixel `(x, y)` of a `width` × `height` RGBA buffer is content: inside
/// the image, and with a colour channel above `threshold`.
pub open spec fn is_content(data: Seq<u8>, width: int, height: int, threshold: u8, x: int, y: int) -> bool {
    &&& 0 <= x < width
    &&& 0 <= y < height
    &&& {
        let i = 4 * (y * width + x);
        data[i] > threshold || data[i + 1] > threshold || data[i + 2] > threshold
    }
}

/// Finds the region to keep when cropping letterbox borders from a
/// `width` × `height` RGBA buffer: the smallest rectangle holding every
/// content pixel, as `(left, top, width, height)`. `None` when there is
/// nothing to crop: no content, content in a single row or column, or
/// content reaching every edge, so that the rectangle is the whole image.
pub fn find_letterbox_crop(data: &Vec<u8>, width: u32, height: u32, threshold: u8) -> (r: Option<
    (u32, u32, u32, u32),
>)
    requires
        data@.len() >= 4 * (width as int) * (height as int),
    ensures
        r.is_some() == (((exists|a: int, b: int, c: int, d: int|
            #![trigger is_content(data@, width as int, height as int, threshold, a, b), is_content(data@, width as int, height as int, threshold, c, d)]
            is_content(data@, width as int, height as int, threshold, a, b) && is_content(
                data@,
                width as int,
                height as int,
                threshold,
                c,
                d,
            ) && a < c) && (exists|a: int, b: int, c: int, d: int|
            #![trigger is_content(data@, width as int, height as int, threshold, a, b), is_content(data@, width as int, height as int, threshold, c, d)]
            is_content(data@, width as int, height as int, threshold, a, b) && is_content(
                data@,
                width as int,
                height as int,
                threshold,
                c,
                d,
            ) && b < d)) && !content_reaches_every_edge(data@, width as int, height as int, threshold)),
        r.is_some() ==> ({
            let (left, top, w, h) = r.unwrap();
            let right = left + w - 1;
            let bottom = top + h - 1;
            &&& forall|x: int, y: int|
                #![trigger is_content(data@, width as int, height as int, threshold, x, y)]
                is_content(data@, width as int, height as int, threshold, x, y) ==> left <= x < left
                    + w && top <= y < top + h
            &&& exists|y: int| is_content(data@, width as int, height as int, threshold, left as int, y)
            &&& exists|x: int, y: int|
                #![trigger is_content(data@, width as int, height as int, threshold, x, y)]
                x == right && is_content(data@, width as int, height as int, threshold, x, y)
            &&& exists|x: int| is_content(data@, width as int, height as int, threshold, x, top as int)
            &&& exists|x: int, y: int|
                #![trigger is_content(data@, width as int, height as int, threshold, x, y)]
                y == bottom && is_content(data@, width as int, height as int, threshold, x, y)
        }),
{
    let ghost d = data@;
    let ghost wi = width as int;
    let ghost hi = height as int;
    let n = data.len();
    let mut found = false;
    let mut left: u32 = 0;
    let mut right: u32 = 0;
    let mut top: u32 = 0;
    let mut bottom: u32 = 0;
    let mut y: u32 = 0;
    while y < height
        invariant
            d == data@,
            wi == width,
            hi == height,
            d.len() >= 4 * wi * hi,
            n == d.len(),
            y <= height,
            !found ==> forall|a: int, b: int|
                #![trigger is_content(d, wi, hi, threshold, a, b)]
                is_content(d, wi, hi, threshold, a, b) ==> b >= y,
            found ==> {
                &&& forall|a: int, b: int|
                    #![trigger is_content(d, wi, hi, threshold, a, b)]
                    is_content(d, wi, hi, threshold, a, b) && b < y ==> left <= a <= right && top
                        <= b <= bottom
                &&& exists|b: int| is_content(d, wi, hi, threshold, left as int, b) && b < y
                &&& exists|b: int| is_content(d, wi, hi, threshold, right as int, b) && b < y
                &&& exists|a: int| is_content(d, wi, hi, threshold, a, top as int) && top < y
                &&& exists|a: int| is_content(d, wi, hi, threshold, a, bottom as int) && bottom < y
            },
        decreases height - y,
    {
        let mut x: u32 = 0;
        while x < width
            invariant
                d == data@,
                wi == width,
                hi == height,
                d.len() >= 4 * wi * hi,
                n == d.len(),
                y < height,
                x <= width,
                !found ==> forall|a: int, b: int|
                    #![trigger is_content(d, wi, hi, threshold, a, b)]
                    is_content(d, wi, hi, threshold, a, b) ==> b > y || (b == y && a >= x),
                found ==> {
                    &&& forall|a: int, b: int|
                        #![trigger is_content(d, wi, hi, threshold, a, b)]
                        is_content(d, wi, hi, threshold, a, b) && (b < y || (b == y && a < x))
                            ==> left <= a <= right && top <= b <= bottom
                    &&& exists|b: int|
                        is_content(d, wi, hi, threshold, left as int, b) && b <= y
                    &&& exists|b: int|
                        is_content(d, wi, hi, threshold, right as int, b) && b <= y
                    &&& exists|a: int| is_content(d, wi, hi, threshold, a, top as int) && top <= y
                    &&& exists|a: int|
                        is_content(d, wi, hi, threshold, a, bottom as int) && bottom <= y
                },
            decreases width - x,
        {
            proof {
                lemma_pixel_index(x as int, y as int, wi, hi);
            }
            let i: usize = 4 * ((y as usize) * (width as usize) + x as usize);
            let content = data[i] > threshold || data[i + 1] > threshold || data[i + 2] > threshold;
            if content {
                assert(is_content(d, wi, hi, threshold, x as int, y as int));
                if !found {
                    found = true;
                    left = x;
                    right = x;
                    top = y;
                    bottom = y;
                } else {
                    if x < left {
                        left = x;
                    }
                    if x > right {
                        right = x;
                    }
                    if y > bottom {
                        bottom = y;
                    }
                }
            }
            x = x + 1;
        }
        y = y + 1;
    }
    assert(y == height);
    if found {
        assert(forall|a: int, b: int|
            #![trigger is_content(d, wi, hi, threshold, a, b)]
            is_content(d, wi, hi, threshold, a, b) ==> left <= a <= right && top <= b <= bottom);
        assert(exists|b: int| is_content(d, wi, hi, threshold, left as int, b));
        assert(exists|b: int| is_content(d, wi, hi, threshold, right as int, b));
        assert(exists|a: int| is_content(d, wi, hi, threshold, a, top as int));
        assert(exists|a: int| is_content(d, wi, hi, threshold, a, bottom as int));
    }
    let whole = found && left == 0 && right as u64 + 1 == width as u64 && top == 0 && bottom as u64
        + 1 == height as u64;
    proof {
        if found {
            if content_reaches_every_edge(d, wi, hi, threshold) {
                let y0 = choose|y: int| is_content(d, wi, hi, threshold, 0, y);
                let y1 = choose|y: int|
                    #![trigger is_content(d, wi, hi, threshold, wi - 1, y)]
                    is_content(d, wi, hi, threshold, wi - 1, y);
                let x0 = choose|x: int| is_content(d, wi, hi, threshold, x, 0);
                let x1 = choose|x: int|
                    #![trigger is_content(d, wi, hi, threshold, x, hi - 1)]
                    is_content(d, wi, hi, threshold, x, hi - 1);
                let yr = choose|b: int| is_content(d, wi, hi, threshold, right as int, b);
                let xb = choose|a: int| is_content(d, wi, hi, threshold, a, bottom as int);
                assert(is_content(d, wi, hi, threshold, 0, y0));
                assert(is_content(d, wi, hi, threshold, wi - 1, y1));
                assert(is_content(d, wi, hi, threshold, x0, 0));
                assert(is_content(d, wi, hi, threshold, x1, hi - 1));
                assert(is_content(d, wi, hi, threshold, right as int, yr));
                assert(is_content(d, wi, hi, threshold, xb, bottom as int));
                assert(whole);
            }
            if whole {
                let y0 = choose|b: int| is_content(d, wi, hi, threshold, left as int, b);
                let y1 = choose|b: int| is_content(d, wi, hi, threshold, right as int, b);
                let x0 = choose|a: int| is_content(d, wi, hi, threshold, a, top as int);
                let x1 = choose|a: int| is_content(d, wi, hi, threshold, a, bottom as int);
                assert(is_content(d, wi, hi, threshold, 0, y0));
                assert(is_content(d, wi, hi, threshold, wi - 1, y1));
                assert(is_content(d, wi, hi, threshold, x0, 0));
                assert(is_content(d, wi, hi, threshold, x1, hi - 1));
                assert(content_reaches_every_edge(d, wi, hi, threshold));
            }
        }
    }
    let ghost two_columns = exists|a: int, b: int, c: int, e: int|
        #![trigger is_content(d, wi, hi, threshold, a, b), is_content(d, wi, hi, threshold, c, e)]
        is_content(d, wi, hi, threshold, a, b) && is_content(d, wi, hi, threshold, c, e) && a < c;
    let ghost two_rows = exists|a: int, b: int, c: int, e: int|
        #![trigger is_content(d, wi, hi, threshold, a, b), is_content(d, wi, hi, threshold, c, e)]
        is_content(d, wi, hi, threshold, a, b) && is_content(d, wi, hi, threshold, c, e) && b < e;
    proof {
        if found && left < right {
            let b0 = choose|b: int| is_content(d, wi, hi, threshold, left as int, b);
            let b1 = choose|b: int| is_content(d, wi, hi, threshold, right as int, b);
            assert(is_content(d, wi, hi, threshold, left as int, b0) && is_content(d, wi, hi, threshold, right as int, b1));
            assert(two_columns);
        }
        if found && top < bottom {
            let a0 = choose|a: int| is_content(d, wi, hi, threshold, a, top as int);
            let a1 = choose|a: int| is_content(d, wi, hi, threshold, a, bottom as int);
            assert(is_content(d, wi, hi, threshold, a0, top as int) && is_content(d, wi, hi, threshold, a1, bottom as int));
            assert(two_rows);
        }
        assert(two_columns ==> found && left < right);
        assert(two_rows ==> found && top < bottom);
        if !found && content_reaches_every_edge(d, wi, hi, threshold) {
            let y0 = choose|y: int| is_content(d, wi, hi, threshold, 0, y);
            assert(is_content(d, wi, hi, threshold, 0, y0));
        }
    }
    if found && left < right && top < bottom && !whole {
        let r = (left, top, right - left + 1, bottom - top + 1);
        assert(r.0 + r.2 - 1 == right);
        Some(r)
    } else {
        None
    }
}

/// Whether content pixels reach all four edges of the image.
pub open spec fn content_reaches_every_edge(data: Seq<u8>, width: int, height: int, threshold: u8) -> bool {
    &&& exists|y: int| is_content(data, width, height, threshold, 0, y)
    &&& exists|y: int|
        #![trigger is_content(data, width, height, threshold, width - 1, y)]
        is_content(data, width, height, threshold, width - 1, y)
    &&& exists|x: int| is_content(data, width, height, threshold, x, 0)
    &&& exists|x: int|
        #![trigger is_content(data, width, height, threshold, x, height - 1)]
        is_content(data, width, height, threshold, x, height - 1)
}

proof fn lemma_pixel_index(x: int, y: int, width: int, height: int)
    requires
        0 <= x < width,
        0 <= y < height,
    ensures
        0 <= y * width,
        4 * (y * width + x) + 3 < 4 * width * height,
{
    assert(0 <= y * width) by (nonlinear_arith)
        requires
            0 <= y,
            0 <= width,
    ;
    assert(y * width + width <= width * height) by (nonlinear_arith)
        requires
            0 <= y < height,
            0 <= width,
    ;
    assert(4 * width * height == 4 * (width * height)) by (nonlinear_arith);
}

} // verus!
