//! The layout diagram: every element of a layout drawn as a flat rectangle,
//! coloured by kind and outlined.
use vstd::prelude::*;
use crate::canvas::{Canvas, canvas_pixels, canvas_size, grid};
use crate::layout::{ElementView, Layout, LayoutElement, LayoutRect};

verus! {

/// Colour of the diagram's background.
pub open spec fn background() -> [u8; 3] {
    [255u8, 255u8, 255u8]
}

/// Colour of every element's outline.
pub open spec fn outline() -> [u8; 3] {
    [100u8, 100u8, 100u8]
}

/// Fill colour of an element, by kind.
pub open spec fn element_fill(e: ElementView) -> [u8; 3] {
    match e {
        ElementView::Image { .. } => [200u8, 200u8, 255u8],
        ElementView::RowLabel { .. } => [255u8, 200u8, 200u8],
        ElementView::ColumnLabel { .. } => [200u8, 255u8, 200u8],
        ElementView::Padding { .. } => [240u8, 240u8, 240u8],
    }
}

/// What `rect`, filled with `fill` and outlined with `border`, shows at `p`,
/// or `under` where it does not cover `p`.
pub open spec fn outlined_rect_pixel(
    rect: LayoutRect,
    fill: [u8; 3],
    border: [u8; 3],
    p: (int, int),
    under: [u8; 3],
) -> [u8; 3] {
    if rect.on_border(p.0, p.1) {
        border
    } else if rect.contains(p.0, p.1) {
        fill
    } else {
        under
    }
}

/// The colour of point `p` of the diagram of `elements`: the last element
/// covering it decides.
pub open spec fn diagram_pixel(elements: Seq<ElementView>, p: (int, int)) -> [u8; 3]
    decreases elements.len(),
{
    if elements.len() == 0 {
        background()
    } else {
        let e = elements.last();
        outlined_rect_pixel(
            e.rect(),
            element_fill(e),
            outline(),
            p,
            diagram_pixel(elements.drop_last(), p),
        )
    }
}

impl LayoutElement {
    /// Fill colour of this element in the layout diagram.
    pub fn debug_fill(&self) -> (r: [u8; 3])
        ensures
            r == element_fill(self@),
    {
        match self {
            LayoutElement::Image { .. } => [200, 200, 255],
            LayoutElement::RowLabel { .. } => [255, 200, 200],
            LayoutElement::ColumnLabel { .. } => [200, 255, 200],
            LayoutElement::Padding { .. } => [240, 240, 240],
        }
    }
}

impl Canvas {
    /// Fills `rect` with `fill` and draws its one-pixel outline in `border`,
    /// clipped to the canvas.
    pub fn draw_outlined_rect(&mut self, rect: LayoutRect, fill: [u8; 3], border: [u8; 3])
        ensures
            canvas_size(*final(self)) == canvas_size(*old(self)),
            forall|p: (int, int)|
                #![trigger canvas_pixels(*final(self))[p]]
                grid(old(self).width_spec(), old(self).height_spec()).contains(p)
                    ==> canvas_pixels(*final(self))[p] == outlined_rect_pixel(
                    rect,
                    fill,
                    border,
                    p,
                    canvas_pixels(*old(self))[p],
                ),
    {
        proof {
            use_type_invariant(&*self);
        }
        let ghost before = canvas_pixels(*self);
        let width = self.width() as i64;
        let height = self.height() as i64;
        let left: i64 = rect.x as i64;
        let top: i64 = rect.y as i64;
        let right: i64 = left + rect.width as i64;
        let bottom: i64 = top + rect.height as i64;
        let x_start: i64 = if left > 0 {
            left
        } else {
            0
        };
        let x_end: i64 = if right < width {
            right
        } else {
            width
        };
        let y_start: i64 = if top > 0 {
            top
        } else {
            0
        };
        let y_end: i64 = if bottom < height {
            bottom
        } else {
            height
        };
        let mut y: i64 = y_start;
        while y < y_end
            invariant
                canvas_size(*self) == canvas_size(*old(self)),
                width == self.width_spec(),
                height == self.height_spec(),
                width <= u32::MAX,
                height <= u32::MAX,
                0 <= y_start <= y,
                y_end <= height,
                y_start == (if top > 0 { top } else { 0 }),
                y_end == (if bottom < height { bottom } else { height }),
                x_start == (if left > 0 { left } else { 0 }),
                x_end == (if right < width { right } else { width }),
                left == rect.x,
                top == rect.y,
                right == rect.x + rect.width,
                bottom == rect.y + rect.height,
                y <= y_end || y == y_start,
                0 <= x_start,
                x_end <= width,
                canvas_pixels(*self).dom() == grid(width as int, height as int),
                forall|p: (int, int)|
                    #![trigger canvas_pixels(*self)[p]]
                    grid(width as int, height as int).contains(p) ==> canvas_pixels(*self)[p] == (
                    if p.1 < y {
                        outlined_rect_pixel(rect, fill, border, p, before[p])
                    } else {
                        before[p]
                    }),
            decreases y_end - y,
        {
            let mut x: i64 = x_start;
            while x < x_end
                invariant
                    canvas_size(*self) == canvas_size(*old(self)),
                    width == self.width_spec(),
                    height == self.height_spec(),
                    width <= u32::MAX,
                    height <= u32::MAX,
                    0 <= y_start <= y < y_end,
                    y_end <= height,
                    0 <= x_start <= x,
                    x_end <= width,
                    x <= x_end || x == x_start,
                    x_start == (if left > 0 { left } else { 0 }),
                    x_end == (if right < width { right } else { width }),
                    left == rect.x,
                    top == rect.y,
                    right == rect.x + rect.width,
                    bottom == rect.y + rect.height,
                    y_start == (if top > 0 { top } else { 0 }),
                    y_end == (if bottom < height { bottom } else { height }),
                    canvas_pixels(*self).dom() == grid(width as int, height as int),
                    forall|p: (int, int)|
                        #![trigger canvas_pixels(*self)[p]]
                        grid(width as int, height as int).contains(p) ==> canvas_pixels(*self)[p]
                            == (if p.1 < y || (p.1 == y && p.0 < x) {
                            outlined_rect_pixel(rect, fill, border, p, before[p])
                        } else {
                            before[p]
                        }),
                decreases x_end - x,
            {
                let on_border = x == left || x == right - 1 || y == top || y == bottom - 1;
                let color = if on_border {
                    border
                } else {
                    fill
                };
                self.set(x as u32, y as u32, color);
                x = x + 1;
            }
            y = y + 1;
        }
    }
}

impl Layout {
    /// Draws the layout as a diagram: on a white canvas of the layout's size,
    /// each element in order as a rectangle filled by kind and outlined in grey.
    pub fn render_debug(&self) -> (r: Canvas)
        requires
            3 * (self.total_width as int) <= usize::MAX,
            3 * (self.total_width as int) * (self.total_height as int) <= usize::MAX,
        ensures
            canvas_size(r) == (self.total_width as nat, self.total_height as nat),
            forall|p: (int, int)|
                #![trigger canvas_pixels(r)[p]]
                grid(self.total_width as int, self.total_height as int).contains(p)
                    ==> canvas_pixels(r)[p] == diagram_pixel(self.element_views(), p),
    {
        let mut canvas = Canvas::filled(self.total_width, self.total_height, [255, 255, 255]);
        let mut k: usize = 0;
        while k < self.elements.len()
            invariant
                k <= self.elements@.len(),
                canvas_size(canvas) == (self.total_width as nat, self.total_height as nat),
                forall|p: (int, int)|
                    #![trigger canvas_pixels(canvas)[p]]
                    grid(self.total_width as int, self.total_height as int).contains(p)
                        ==> canvas_pixels(canvas)[p] == diagram_pixel(
                        self.element_views().subrange(0, k as int),
                        p,
                    ),
            decreases self.elements@.len() - k,
        {
            let element = &self.elements[k];
            let rect = element.rect();
            let fill = element.debug_fill();
            canvas.draw_outlined_rect(rect, fill, [100, 100, 100]);
            proof {
                let views = self.element_views();
                assert(views.subrange(0, k + 1).drop_last() =~= views.subrange(0, k as int));
                assert(views.subrange(0, k + 1).last() == self.elements@[k as int]@);
            }
            k = k + 1;
        }
        proof {
            assert(self.element_views().subrange(0, k as int) =~= self.element_views());
        }
        canvas
    }
}

} // verus!
