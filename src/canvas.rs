//! The pixel canvas: an RGB image buffer of the `image` crate, with what is
//! drawn on it.
use vstd::prelude::*;
use image::{Rgb, RgbImage};

verus! {

/// An RGB image held in an `image::RgbImage`.
#[verifier::external_body]
pub struct Canvas {
    image: RgbImage,
}

/// Width and height of a canvas.
pub uninterp spec fn canvas_size(canvas: Canvas) -> (nat, nat);

/// The pixels of a canvas, by `(x, y)`.
pub uninterp spec fn canvas_pixels(canvas: Canvas) -> Map<(int, int), [u8; 3]>;

/// The points of a `width` × `height` grid.
pub open spec fn grid(width: int, height: int) -> Set<(int, int)> {
    Set::new(|p: (int, int)| 0 <= p.0 < width && 0 <= p.1 < height)
}

impl Canvas {
    pub open spec fn width_spec(self) -> int {
        canvas_size(self).0 as int
    }

    pub open spec fn height_spec(self) -> int {
        canvas_size(self).1 as int
    }

    /// A canvas has a pixel at each point of its grid and nowhere else: the
    /// constructors below establish it and `set` keeps it.
    #[verifier::type_invariant]
    pub open spec fn well_formed(self) -> bool {
        canvas_pixels(self).dom() == grid(self.width_spec(), self.height_spec())
    }

    /// Relies on `ImageBuffer::new`: an image of the given size with every
    /// channel 0; it panics when the length of a row, or of the buffer,
    /// overflows `usize`.
    #[verifier::external_body]
    fn black(width: u32, height: u32) -> (r: Canvas)
        requires
            3 * (width as int) <= usize::MAX,
            3 * (width as int) * (height as int) <= usize::MAX,
        ensures
            canvas_size(r) == (width as nat, height as nat),
            canvas_pixels(r) == Map::new(
                |p: (int, int)| 0 <= p.0 < width && 0 <= p.1 < height,
                |p: (int, int)| [0u8, 0u8, 0u8],
            ),
    {
        Canvas { image: RgbImage::new(width, height) }
    }

    /// Relies on `ImageBuffer::put_pixel`: sets one pixel; it panics outside the image.
    #[verifier::external_body]
    pub(crate) fn set(&mut self, x: u32, y: u32, color: [u8; 3])
        requires
            x < old(self).width_spec(),
            y < old(self).height_spec(),
        ensures
            canvas_size(*final(self)) == canvas_size(*old(self)),
            canvas_pixels(*final(self)) == canvas_pixels(*old(self)).insert(
                (x as int, y as int),
                color,
            ),
    {
        self.image.put_pixel(x, y, Rgb(color));
    }

    /// Relies on `ImageBuffer::get_pixel`: reads one pixel; it panics outside the image.
    #[verifier::external_body]
    fn get(&self, x: u32, y: u32) -> (r: [u8; 3])
        requires
            x < self.width_spec(),
            y < self.height_spec(),
        ensures
            r == canvas_pixels(*self)[(x as int, y as int)],
    {
        self.image.get_pixel(x, y).0
    }

    /// Relies on `ImageBuffer::dimensions`: the width and height of the image.
    #[verifier::external_body]
    fn size(&self) -> (r: (u32, u32))
        ensures
            r.0 == self.width_spec(),
            r.1 == self.height_spec(),
    {
        self.image.dimensions()
    }

    /// Relies on `ImageBuffer::from_raw`: an image over `data`, whose pixel
    /// `(x, y)` is the three bytes from `3 * (y * width + x)` on; `None` when
    /// `data` holds fewer than `3 * width * height` bytes, or that count or
    /// `3 * width` overflows `usize`.
    #[verifier::external_body]
    fn from_raw(width: u32, height: u32, data: Vec<u8>) -> (r: Option<Canvas>)
        ensures
            r.is_some() == raw_fits(width as int, height as int, data@.len() as int),
            r.is_some() ==> canvas_size(r.unwrap()) == (width as nat, height as nat)
                && canvas_pixels(r.unwrap()) == pixels_of_bytes(data@, width as int, height as int),
    {
        match RgbImage::from_raw(width, height, data) {
            Some(image) => Some(Canvas { image }),
            None => None,
        }
    }

    /// Relies on `ImageBuffer::into_raw`: the buffer behind the image, pixel
    /// `(x, y)` at the three bytes from `3 * (y * width + x)` on.
    #[verifier::external_body]
    fn into_raw(self) -> (r: Vec<u8>)
        ensures
            r@.len() >= 3 * self.width_spec() * self.height_spec(),
            pixels_of_bytes(r@, self.width_spec(), self.height_spec()) == canvas_pixels(self),
    {
        self.image.into_raw()
    }

    /// A canvas of the given size with every pixel `color`.
    pub fn filled(width: u32, height: u32, color: [u8; 3]) -> (r: Canvas)
        requires
            3 * (width as int) <= usize::MAX,
            3 * (width as int) * (height as int) <= usize::MAX,
        ensures
            canvas_size(r) == (width as nat, height as nat),
            canvas_pixels(r) == Map::new(
                |p: (int, int)| 0 <= p.0 < width && 0 <= p.1 < height,
                |p: (int, int)| color,
            ),
    {
        let mut canvas = Canvas::black(width, height);
        let mut y: u32 = 0;
        while y < height
            invariant
                canvas_size(canvas) == (width as nat, height as nat),
                y <= height,
                canvas_pixels(canvas).dom() == grid(width as int, height as int),
                forall|p: (int, int)|
                    #![trigger canvas_pixels(canvas)[p]]
                    grid(width as int, height as int).contains(p) && p.1 < y
                        ==> canvas_pixels(canvas)[p] == color,
            decreases height - y,
        {
            let mut x: u32 = 0;
            while x < width
                invariant
                    canvas_size(canvas) == (width as nat, height as nat),
                    x <= width,
                    y < height,
                    canvas_pixels(canvas).dom() == grid(width as int, height as int),
                    forall|p: (int, int)|
                        #![trigger canvas_pixels(canvas)[p]]
                        grid(width as int, height as int).contains(p) && (p.1 < y || (p.1 == y
                            && p.0 < x)) ==> canvas_pixels(canvas)[p] == color,
                decreases width - x,
            {
                canvas.set(x, y, color);
                x = x + 1;
            }
            y = y + 1;
        }
        proof {
            assert(canvas_pixels(canvas) =~= Map::new(
                |p: (int, int)| 0 <= p.0 < width && 0 <= p.1 < height,
                |p: (int, int)| color,
            ));
        }
        canvas
    }

    /// A canvas over `data`, pixel `(x, y)` being the three bytes from
    /// `3 * (y * width + x)` on; `None` when `data` is too short for the size.
    pub fn from_rgb_bytes(width: u32, height: u32, data: Vec<u8>) -> (r: Option<Canvas>)
        ensures
            r.is_some() == raw_fits(width as int, height as int, data@.len() as int),
            r.is_some() ==> canvas_size(r.unwrap()) == (width as nat, height as nat)
                && canvas_pixels(r.unwrap()) == pixels_of_bytes(data@, width as int, height as int),
    {
        Canvas::from_raw(width, height, data)
    }

    /// The bytes of this canvas, row by row, three a pixel.
    pub fn into_rgb_bytes(self) -> (r: Vec<u8>)
        ensures
            r@.len() >= 3 * self.width_spec() * self.height_spec(),
            pixels_of_bytes(r@, self.width_spec(), self.height_spec()) == canvas_pixels(self),
    {
        self.into_raw()
    }

    pub fn width(&self) -> (r: u32)
        ensures
            r == self.width_spec(),
    {
        self.size().0
    }

    pub fn height(&self) -> (r: u32)
        ensures
            r == self.height_spec(),
    {
        self.size().1
    }

    /// The pixel at `(x, y)`, or `None` outside the canvas.
    pub fn pixel(&self, x: u32, y: u32) -> (r: Option<[u8; 3]>)
        ensures
            r.is_some() == (x < self.width_spec() && y < self.height_spec()),
            r.is_some() ==> r.unwrap() == canvas_pixels(*self)[(x as int, y as int)],
    {
        let (width, height) = self.size();
        if x < width && y < height {
            Some(self.get(x, y))
        } else {
            None
        }
    }

    /// Copies `image` onto this canvas with its top-left corner at `(x, y)`.
    /// Pixels that fall outside the canvas are dropped.
    pub fn draw_image(&mut self, image: &Canvas, x: i32, y: i32)
        ensures
            canvas_size(*final(self)) == canvas_size(*old(self)),
            forall|p: (int, int)|
                #![trigger canvas_pixels(*final(self))[p]]
                grid(old(self).width_spec(), old(self).height_spec()).contains(p)
                    ==> canvas_pixels(*final(self))[p] == (if grid(
                    image.width_spec(),
                    image.height_spec(),
                ).contains((p.0 - x, p.1 - y)) {
                    canvas_pixels(*image)[(p.0 - x, p.1 - y)]
                } else {
                    canvas_pixels(*old(self))[p]
                }),
    {
        proof {
            use_type_invariant(&*self);
            use_type_invariant(image);
        }
        let ghost before = canvas_pixels(*self);
        let (width, height) = self.size();
        let (image_width, image_height) = image.size();
        let mut iy: u32 = 0;
        while iy < image_height
            invariant
                canvas_size(*self) == canvas_size(*old(self)),
                width == self.width_spec(),
                height == self.height_spec(),
                image_width == image.width_spec(),
                image_height == image.height_spec(),
                iy <= image_height,
                canvas_pixels(*self).dom() == grid(width as int, height as int),
                forall|p: (int, int)|
                    #![trigger canvas_pixels(*self)[p]]
                    grid(width as int, height as int).contains(p) ==> canvas_pixels(*self)[p] == (
                    if grid(image_width as int, image_height as int).contains((p.0 - x, p.1 - y))
                        && p.1 - y < iy {
                        canvas_pixels(*image)[(p.0 - x, p.1 - y)]
                    } else {
                        before[p]
                    }),
            decreases image_height - iy,
        {
            let mut ix: u32 = 0;
            while ix < image_width
                invariant
                    canvas_size(*self) == canvas_size(*old(self)),
                    width == self.width_spec(),
                    height == self.height_spec(),
                    image_width == image.width_spec(),
                    image_height == image.height_spec(),
                    ix <= image_width,
                    iy < image_height,
                    canvas_pixels(*self).dom() == grid(width as int, height as int),
                    forall|p: (int, int)|
                        #![trigger canvas_pixels(*self)[p]]
                        grid(width as int, height as int).contains(p) ==> canvas_pixels(*self)[p]
                            == (if grid(image_width as int, image_height as int).contains(
                            (p.0 - x, p.1 - y),
                        ) && (p.1 - y < iy || (p.1 - y == iy && p.0 - x < ix)) {
                            canvas_pixels(*image)[(p.0 - x, p.1 - y)]
                        } else {
                            before[p]
                        }),
                decreases image_width - ix,
            {
                let cx: i64 = x as i64 + ix as i64;
                let cy: i64 = y as i64 + iy as i64;
                if 0 <= cx && cx < width as i64 && 0 <= cy && cy < height as i64 {
                    let color = image.get(ix, iy);
                    self.set(cx as u32, cy as u32, color);
                }
                ix = ix + 1;
            }
            iy = iy + 1;
        }
    }

    /// Blends `color` into the canvas through the coverage bitmap `coverage`
    /// (`glyph_width` × `glyph_height`, row by row), its top-left corner at
    /// `(x, y)`. Pixels without coverage, and those outside the canvas, are
    /// left as they are.
    pub fn blend_glyph(
        &mut self,
        coverage: &Vec<u8>,
        glyph_width: usize,
        glyph_height: usize,
        x: i32,
        y: i32,
        color: [u8; 3],
    )
        requires
            coverage@.len() == glyph_width * glyph_height,
        ensures
            canvas_size(*final(self)) == canvas_size(*old(self)),
            forall|p: (int, int)|
                #![trigger canvas_pixels(*final(self))[p]]
                grid(old(self).width_spec(), old(self).height_spec()).contains(p)
                    ==> canvas_pixels(*final(self))[p] == glyph_pixel(
                    canvas_pixels(*old(self))[p],
                    coverage@,
                    glyph_width as int,
                    glyph_height as int,
                    (p.0 - x, p.1 - y),
                    color,
                ),
    {
        proof {
            use_type_invariant(&*self);
        }
        let ghost before = canvas_pixels(*self);
        let (width, height) = self.size();
        let cells = coverage.len();
        let mut gy: usize = 0;
        while gy < glyph_height
            invariant
                canvas_size(*self) == canvas_size(*old(self)),
                width == self.width_spec(),
                height == self.height_spec(),
                coverage@.len() == glyph_width * glyph_height,
                cells == coverage@.len(),
                gy <= glyph_height,
                canvas_pixels(*self).dom() == grid(width as int, height as int),
                forall|p: (int, int)|
                    #![trigger canvas_pixels(*self)[p]]
                    grid(width as int, height as int).contains(p) ==> canvas_pixels(*self)[p] == (
                    if p.1 - y < gy {
                        glyph_pixel(
                            before[p],
                            coverage@,
                            glyph_width as int,
                            glyph_height as int,
                            (p.0 - x, p.1 - y),
                            color,
                        )
                    } else {
                        before[p]
                    }),
            decreases glyph_height - gy,
        {
            let mut gx: usize = 0;
            while gx < glyph_width
                invariant
                    canvas_size(*self) == canvas_size(*old(self)),
                    width == self.width_spec(),
                    height == self.height_spec(),
                    coverage@.len() == glyph_width * glyph_height,
                    cells == coverage@.len(),
                    gx <= glyph_width,
                    gy < glyph_height,
                    canvas_pixels(*self).dom() == grid(width as int, height as int),
                    forall|p: (int, int)|
                        #![trigger canvas_pixels(*self)[p]]
                        grid(width as int, height as int).contains(p) ==> canvas_pixels(*self)[p]
                            == (if p.1 - y < gy || (p.1 - y == gy && p.0 - x < gx) {
                            glyph_pixel(
                                before[p],
                                coverage@,
                                glyph_width as int,
                                glyph_height as int,
                                (p.0 - x, p.1 - y),
                                color,
                            )
                        } else {
                            before[p]
                        }),
                decreases glyph_width - gx,
            {
                proof {
                    lemma_cell_index(gx as int, gy as int, glyph_width as int, glyph_height as int);
                }
                let alpha = coverage[gy * glyph_width + gx];
                if alpha > 0 && gx as u64 <= 0x2_0000_0000u64 && gy as u64 <= 0x2_0000_0000u64 {
                    let cx: i64 = x as i64 + gx as i64;
                    let cy: i64 = y as i64 + gy as i64;
                    if 0 <= cx && cx < width as i64 && 0 <= cy && cy < height as i64 {
                        let old_color = self.get(cx as u32, cy as u32);
                        self.set(cx as u32, cy as u32, blend_pixel(old_color, color, alpha));
                    }
                }
                gx = gx + 1;
            }
            gy = gy + 1;
        }
    }
}

/// Whether `len` bytes hold a `width` × `height` RGB image whose byte count,
/// and the byte count of one row, fit `usize`.
pub open spec fn raw_fits(width: int, height: int, len: int) -> bool {
    3 * width <= usize::MAX && 3 * width * height <= usize::MAX && 3 * width * height <= len
}

/// The pixels of a `width` × `height` image stored row by row, three bytes a pixel, in `data`.
pub open spec fn pixels_of_bytes(data: Seq<u8>, width: int, height: int) -> Map<(int, int), [u8; 3]> {
    Map::new(
        |p: (int, int)| 0 <= p.0 < width && 0 <= p.1 < height,
        |p: (int, int)|
            [
                data[3 * (p.1 * width + p.0)],
                data[3 * (p.1 * width + p.0) + 1],
                data[3 * (p.1 * width + p.0) + 2],
            ],
    )
}

/// A channel at `old` with `color` laid over it at opacity `alpha` / 255,
/// rounded to the nearest integer.
pub open spec fn blended(old: int, color: int, alpha: int) -> int {
    (old * (255 - alpha) + color * alpha + 127) / 255
}

/// Lays `color` over `old` at opacity `alpha` / 255, channel by channel.
pub open spec fn blended_pixel(old: [u8; 3], color: [u8; 3], alpha: u8) -> [u8; 3] {
    [
        blended(old[0] as int, color[0] as int, alpha as int) as u8,
        blended(old[1] as int, color[1] as int, alpha as int) as u8,
        blended(old[2] as int, color[2] as int, alpha as int) as u8,
    ]
}

/// The coverage of glyph cell `q` in a `glyph_width` × `glyph_height` bitmap,
/// 0 outside it.
pub open spec fn coverage_at(coverage: Seq<u8>, glyph_width: int, glyph_height: int, q: (int, int)) -> u8 {
    if 0 <= q.0 < glyph_width && 0 <= q.1 < glyph_height {
        coverage[q.1 * glyph_width + q.0]
    } else {
        0
    }
}

/// A canvas pixel `old` after the glyph cell `q` has been blended over it.
pub open spec fn glyph_pixel(
    old: [u8; 3],
    coverage: Seq<u8>,
    glyph_width: int,
    glyph_height: int,
    q: (int, int),
    color: [u8; 3],
) -> [u8; 3] {
    let alpha = coverage_at(coverage, glyph_width, glyph_height, q);
    if alpha > 0 {
        blended_pixel(old, color, alpha)
    } else {
        old
    }
}

proof fn lemma_cell_index(gx: int, gy: int, glyph_width: int, glyph_height: int)
    requires
        0 <= gx < glyph_width,
        0 <= gy < glyph_height,
    ensures
        0 <= gy * glyph_width,
        gy * glyph_width + gx < glyph_width * glyph_height,
{
    assert(0 <= gy * glyph_width) by (nonlinear_arith)
        requires
            0 <= gy,
            0 <= glyph_width,
    ;
    assert(gy * glyph_width + glyph_width <= glyph_width * glyph_height) by (nonlinear_arith)
        requires
            0 <= gy < glyph_height,
            0 <= glyph_width,
    ;
}

/// One channel of `color` laid over `old` at opacity `alpha` / 255, rounded.
pub fn blend_channel(old: u8, color: u8, alpha: u8) -> (r: u8)
    ensures
        r == blended(old as int, color as int, alpha as int),
{
    proof {
        assert(old as int * (255 - alpha as int) + color as int * alpha as int <= 255 * 255)
            by (nonlinear_arith)
            requires
                0 <= old <= 255,
                0 <= color <= 255,
                0 <= alpha <= 255,
        ;
        assert(0 <= old as int * (255 - alpha as int)) by (nonlinear_arith)
            requires
                0 <= old,
                alpha <= 255,
        ;
        assert(0 <= color as int * alpha as int) by (nonlinear_arith)
            requires
                0 <= color,
                0 <= alpha,
        ;
    }
    let value: u32 = old as u32 * (255 - alpha as u32) + color as u32 * alpha as u32 + 127;
    (value / 255) as u8
}

/// `color` laid over `old` at opacity `alpha` / 255, channel by channel.
pub fn blend_pixel(old: [u8; 3], color: [u8; 3], alpha: u8) -> (r: [u8; 3])
    ensures
        r == blended_pixel(old, color, alpha),
{
    let r = [
        blend_channel(old[0], color[0], alpha),
        blend_channel(old[1], color[1], alpha),
        blend_channel(old[2], color[2], alpha),
    ];
    assert(r =~= blended_pixel(old, color, alpha));
    r
}

} // verus!
