//! The planned layout of a grid: placed, typed rectangles and the canvas size.
use vstd::prelude::*;

verus! {

/// A rectangle on the canvas. Its origin may be negative; whatever falls
/// outside the canvas is clipped when drawn.
#[derive(Debug, Clone, Copy, PartialEq, Eq, Structural)]
pub struct LayoutRect {
    pub x: i32,
    pub y: i32,
    pub width: u32,
    pub height: u32,
}

impl LayoutRect {
    /// Whether the point `(px, py)` lies inside this rectangle.
    pub open spec fn contains(self, px: int, py: int) -> bool {
        self.x <= px < self.x + self.width && self.y <= py < self.y + self.height
    }

    /// Whether the point `(px, py)` lies on the one-pixel outline of this rectangle.
    pub open spec fn on_border(self, px: int, py: int) -> bool {
        self.contains(px, py) && (px == self.x || px == self.x + self.width - 1 || py == self.y
            || py == self.y + self.height - 1)
    }
}

/// One placed element of a layout.
#[derive(Debug)]
pub enum LayoutElement {
    Image { rect: LayoutRect, path: String },
    RowLabel { rect: LayoutRect, text: String },
    ColumnLabel { rect: LayoutRect, text: String },
    Padding { rect: LayoutRect, description: String },
}

/// What a layout element is, with its strings as character sequences.
pub enum ElementView {
    Image { rect: LayoutRect, path: Seq<char> },
    RowLabel { rect: LayoutRect, text: Seq<char> },
    ColumnLabel { rect: LayoutRect, text: Seq<char> },
    Padding { rect: LayoutRect, description: Seq<char> },
}

impl ElementView {
    pub open spec fn rect(self) -> LayoutRect {
        match self {
            ElementView::Image { rect, .. } => rect,
            ElementView::RowLabel { rect, .. } => rect,
            ElementView::ColumnLabel { rect, .. } => rect,
            ElementView::Padding { rect, .. } => rect,
        }
    }
}

impl View for LayoutElement {
    type V = ElementView;

    open spec fn view(&self) -> ElementView {
        match self {
            LayoutElement::Image { rect, path } => ElementView::Image { rect: *rect, path: path@ },
            LayoutElement::RowLabel { rect, text } => ElementView::RowLabel {
                rect: *rect,
                text: text@,
            },
            LayoutElement::ColumnLabel { rect, text } => ElementView::ColumnLabel {
                rect: *rect,
                text: text@,
            },
            LayoutElement::Padding { rect, description } => ElementView::Padding {
                rect: *rect,
                description: description@,
            },
        }
    }
}

impl LayoutElement {
    /// The rectangle of this element, whatever its kind.
    pub fn rect(&self) -> (r: LayoutRect)
        ensures
            r == self@.rect(),
    {
        match self {
            LayoutElement::Image { rect, .. } => *rect,
            LayoutElement::RowLabel { rect, .. } => *rect,
            LayoutElement::ColumnLabel { rect, .. } => *rect,
            LayoutElement::Padding { rect, .. } => *rect,
        }
    }
}

/// The complete layout of a plot: its elements in drawing order and the canvas size.
#[derive(Debug)]
pub struct Layout {
    pub elements: Vec<LayoutElement>,
    pub total_width: u32,
    pub total_height: u32,
}

impl Layout {
    /// The elements of this layout, as views.
    pub open spec fn element_views(&self) -> Seq<ElementView> {
        self.elements@.map_values(|e: LayoutElement| e@)
    }

    /// Creates an empty layout of the given canvas size.
    pub fn new(width: u32, height: u32) -> (r: Self)
        ensures
            r.elements@.len() == 0,
            r.total_width == width,
            r.total_height == height,
    {
        Layout { elements: Vec::new(), total_width: width, total_height: height }
    }

    /// Appends an element; it is drawn after those already present.
    pub fn add_element(&mut self, element: LayoutElement)
        ensures
            final(self).elements@ == old(self).elements@.push(element),
            final(self).element_views() == old(self).element_views().push(element@),
            final(self).total_width == old(self).total_width,
            final(self).total_height == old(self).total_height,
    {
        self.elements.push(element);
        proof {
            assert(self.element_views() =~= old(self).element_views().push(element@));
        }
    }
}

} // verus!
