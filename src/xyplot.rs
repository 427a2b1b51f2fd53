//! Grid configuration, its validation and the layout planner.
use vstd::prelude::*;
use vstd::arithmetic::div_mod::{
    lemma_fundamental_div_mod, lemma_multiply_divide_lt, lemma_mod_pos_bound, lemma_div_pos_is_pos,
    lemma_div_decreases,
};
use crate::image_processing::{extension_of, path_extension};
use crate::labels::{LabelSize, lemma_max_of_bounds, max_of};
use crate::layout::{ElementView, Layout, LayoutElement, LayoutRect};

verus! {

/// Default space reserved at the top of the plot for column labels.
pub const DEFAULT_TOP_PADDING: u32 = 40;

/// Default space reserved at the left of the plot for row labels.
pub const DEFAULT_LEFT_PADDING: u32 = 40;

/// Space added to the widest row label and to the tallest column label.
pub const LABEL_MARGIN: u32 = 20;

/// Distance of row labels from the left edge of the canvas.
pub const ROW_LABEL_INSET: u32 = 10;

/// Pixel size at which label text is set.
pub const LABEL_FONT_PX: u32 = 24;

/// Height of one line of label text in tenths of a pixel: 1.2 times the label size.
pub const LINE_HEIGHT_TENTHS: u32 = 288;

/// Where a label sits relative to the content it annotates.
#[derive(Debug, Clone, Copy, PartialEq, Eq, Structural)]
pub enum LabelAlignment {
    /// At the left (or top) edge.
    Start,
    /// Centred.
    Center,
    /// At the right (or bottom) edge.
    End,
}

impl Default for LabelAlignment {
    fn default() -> (r: Self)
        ensures
            r == LabelAlignment::Center,
    {
        LabelAlignment::Center
    }
}

/// What a grid of images looks like: its images, shape, labels and paddings.
#[derive(Debug, Clone)]
pub struct PlotConfig {
    /// Paths of the images, placed row by row.
    pub images: Vec<String>,
    /// Path the finished plot is written to.
    pub output: String,
    /// Number of rows of the grid.
    pub rows: u32,
    /// One label per row, or none. A label may span lines separated by '\n'.
    pub row_labels: Vec<String>,
    /// One label per column, or none. A label may span lines separated by '\n'.
    pub column_labels: Vec<String>,
    pub column_label_alignment: LabelAlignment,
    pub row_label_alignment: LabelAlignment,
    /// Whether a flat diagram of the layout is written beside the plot.
    pub debug_mode: bool,
    /// Least space reserved above the grid when there are column labels.
    pub top_padding: u32,
    /// Least space reserved left of the grid when there are row labels.
    pub left_padding: u32,
}

impl Default for PlotConfig {
    fn default() -> (r: Self)
        ensures
            r.images@.len() == 0,
            r.output@ == "output.jpg"@,
            r.rows == 1,
            r.row_labels@.len() == 0,
            r.column_labels@.len() == 0,
            r.column_label_alignment == LabelAlignment::Center,
            r.row_label_alignment == LabelAlignment::Center,
            !r.debug_mode,
            r.top_padding == DEFAULT_TOP_PADDING,
            r.left_padding == DEFAULT_LEFT_PADDING,
    {
        PlotConfig {
            images: Vec::new(),
            output: String::from_str("output.jpg"),
            rows: 1,
            row_labels: Vec::new(),
            column_labels: Vec::new(),
            column_label_alignment: LabelAlignment::default(),
            row_label_alignment: LabelAlignment::default(),
            debug_mode: false,
            top_padding: DEFAULT_TOP_PADDING,
            left_padding: DEFAULT_LEFT_PADDING,
        }
    }
}

/// Why a grid cannot be planned.
#[derive(Debug, Clone, Copy, PartialEq, Eq, Structural)]
pub enum PlotError {
    /// There are row labels, but not one per row.
    RowLabelCount { given: usize, rows: u32 },
    /// There are column labels, but not one per column.
    ColumnLabelCount { given: usize, columns: u32 },
    /// The grid has no rows.
    NoRows,
    /// More images than a `u32` can count.
    TooManyImages { count: usize },
    /// The canvas, or a label on it, does not fit the `i32` coordinate space.
    CanvasTooLarge,
}

/// Number of columns needed to hold `images` images in `rows` rows.
pub open spec fn column_count(images: int, rows: int) -> int {
    if images % rows == 0 {
        images / rows
    } else {
        images / rows + 1
    }
}

/// The outcome of validating a configuration with the given counts.
pub open spec fn config_verdict(images: nat, rows: u32, row_labels: nat, column_labels: nat) -> Result<
    u32,
    PlotError,
> {
    if row_labels != 0 && row_labels != rows {
        Err(PlotError::RowLabelCount { given: row_labels as usize, rows })
    } else if rows == 0 {
        Err(PlotError::NoRows)
    } else if images > u32::MAX {
        Err(PlotError::TooManyImages { count: images as usize })
    } else if column_labels != 0 && column_labels != column_count(images as int, rows as int) {
        Err(
            PlotError::ColumnLabelCount {
                given: column_labels as usize,
                columns: column_count(images as int, rows as int) as u32,
            },
        )
    } else {
        Ok(column_count(images as int, rows as int) as u32)
    }
}

/// The outcome of validating `config`.
pub open spec fn config_outcome(config: PlotConfig) -> Result<u32, PlotError> {
    config_verdict(
        config.images@.len(),
        config.rows,
        config.row_labels@.len(),
        config.column_labels@.len(),
    )
}

/// `images` images fill `rows` rows of `column_count` columns, none of them empty but the last.
pub proof fn lemma_column_count(images: int, rows: int)
    requires
        images >= 0,
        rows >= 1,
    ensures
        0 <= column_count(images, rows) <= images,
        column_count(images, rows) * rows >= images,
{
    lemma_fundamental_div_mod(images, rows);
    lemma_mod_pos_bound(images, rows);
    lemma_div_pos_is_pos(images, rows);
    if images > 0 && rows > 1 {
        lemma_div_decreases(images, rows);
    }
    assert(column_count(images, rows) * rows >= images) by (nonlinear_arith)
        requires
            images == rows * (images / rows) + images % rows,
            0 <= images % rows < rows,
            column_count(images, rows) == (if images % rows == 0 {
                images / rows
            } else {
                images / rows + 1
            }),
    ;
}

/// Checks the label counts against the grid and returns the number of columns.
pub fn validate_plot_config(config: &PlotConfig) -> (r: Result<u32, PlotError>)
    ensures
        r == config_outcome(*config),
{
    let n_row_labels = config.row_labels.len();
    if n_row_labels != 0 && n_row_labels != config.rows as usize {
        return Err(PlotError::RowLabelCount { given: n_row_labels, rows: config.rows });
    }
    if config.rows == 0 {
        return Err(PlotError::NoRows);
    }
    let n_images = config.images.len();
    if n_images > u32::MAX as usize {
        return Err(PlotError::TooManyImages { count: n_images });
    }
    let n = n_images as u32;
    proof {
        lemma_column_count(n as int, config.rows as int);
    }
    let cols: u32 = if n % config.rows == 0 {
        n / config.rows
    } else {
        n / config.rows + 1
    };
    let n_column_labels = config.column_labels.len();
    if n_column_labels != 0 && n_column_labels != cols as usize {
        return Err(PlotError::ColumnLabelCount { given: n_column_labels, columns: cols });
    }
    Ok(cols)
}

/// The widths of a list of image sizes.
pub open spec fn widths_of(s: Seq<(u32, u32)>) -> Seq<u32> {
    s.map_values(|p: (u32, u32)| p.0)
}

/// The heights of a list of image sizes.
pub open spec fn heights_of(s: Seq<(u32, u32)>) -> Seq<u32> {
    s.map_values(|p: (u32, u32)| p.1)
}

/// The widths of a list of label sizes.
pub open spec fn label_widths(s: Seq<LabelSize>) -> Seq<u32> {
    s.map_values(|l: LabelSize| l.width)
}

/// The heights of a list of label sizes.
pub open spec fn label_heights(s: Seq<LabelSize>) -> Seq<u32> {
    s.map_values(|l: LabelSize| l.height)
}

/// The larger of `a` and `b`.
pub open spec fn max_int(a: int, b: int) -> int {
    if a >= b {
        a
    } else {
        b
    }
}

/// The rectangle with the given origin and size.
pub open spec fn rect_at(x: int, y: int, width: int, height: int) -> LayoutRect {
    LayoutRect { x: x as i32, y: y as i32, width: width as u32, height: height as u32 }
}

/// Offset of an item `size` wide within a span `span` wide, under `alignment`.
pub open spec fn aligned_offset(alignment: LabelAlignment, span: int, size: int) -> int {
    match alignment {
        LabelAlignment::Start => 0,
        LabelAlignment::Center => (span - size) / 2,
        LabelAlignment::End => span - size,
    }
}

/// The largest width and the largest height among `sizes`, 0 where there is none.
pub fn find_max_dimensions(sizes: &Vec<(u32, u32)>) -> (r: (u32, u32))
    ensures
        r.0 == max_of(widths_of(sizes@)),
        r.1 == max_of(heights_of(sizes@)),
{
    let mut max_width: u32 = 0;
    let mut max_height: u32 = 0;
    let mut i: usize = 0;
    while i < sizes.len()
        invariant
            i <= sizes@.len(),
            max_width == max_of(widths_of(sizes@.subrange(0, i as int))),
            max_height == max_of(heights_of(sizes@.subrange(0, i as int))),
        decreases sizes@.len() - i,
    {
        proof {
            let next = sizes@.subrange(0, i + 1);
            assert(widths_of(next).drop_last() =~= widths_of(sizes@.subrange(0, i as int)));
            assert(heights_of(next).drop_last() =~= heights_of(sizes@.subrange(0, i as int)));
        }
        let (w, h) = sizes[i];
        if w > max_width {
            max_width = w;
        }
        if h > max_height {
            max_height = h;
        }
        i = i + 1;
    }
    proof {
        assert(sizes@.subrange(0, i as int) =~= sizes@);
    }
    (max_width, max_height)
}

/// The widest width and the tallest height among `sizes`, 0 where there is none.
fn max_label_extent(sizes: &Vec<LabelSize>) -> (r: LabelSize)
    ensures
        r.width == max_of(label_widths(sizes@)),
        r.height == max_of(label_heights(sizes@)),
{
    let mut width: u32 = 0;
    let mut height: u32 = 0;
    let mut i: usize = 0;
    while i < sizes.len()
        invariant
            i <= sizes@.len(),
            width == max_of(label_widths(sizes@.subrange(0, i as int))),
            height == max_of(label_heights(sizes@.subrange(0, i as int))),
        decreases sizes@.len() - i,
    {
        proof {
            let next = sizes@.subrange(0, i + 1);
            assert(label_widths(next).drop_last() =~= label_widths(sizes@.subrange(0, i as int)));
            assert(label_heights(next).drop_last() =~= label_heights(sizes@.subrange(0, i as int)));
        }
        let l = sizes[i];
        if l.width > width {
            width = l.width;
        }
        if l.height > height {
            height = l.height;
        }
        i = i + 1;
    }
    proof {
        assert(sizes@.subrange(0, i as int) =~= sizes@);
    }
    LabelSize { width, height }
}

/// Everything the layout of a grid depends on: the configuration and the
/// measured sizes of its images and labels, index by index.
pub struct PlotInputs {
    pub config: PlotConfig,
    pub image_sizes: Seq<(u32, u32)>,
    pub row_label_sizes: Seq<LabelSize>,
    pub column_label_sizes: Seq<LabelSize>,
}

pub open spec fn plot_inputs(
    config: PlotConfig,
    image_sizes: Seq<(u32, u32)>,
    row_label_sizes: Seq<LabelSize>,
    column_label_sizes: Seq<LabelSize>,
) -> PlotInputs {
    PlotInputs { config, image_sizes, row_label_sizes, column_label_sizes }
}

impl PlotInputs {
    /// There is one size for each image and for each label.
    pub open spec fn well_formed(self) -> bool {
        &&& self.image_sizes.len() == self.config.images@.len()
        &&& self.row_label_sizes.len() == self.config.row_labels@.len()
        &&& self.column_label_sizes.len() == self.config.column_labels@.len()
    }

    pub open spec fn columns(self) -> int {
        column_count(self.image_sizes.len() as int, self.config.rows as int)
    }

    /// Width of every cell: that of the widest image.
    pub open spec fn max_width(self) -> int {
        max_of(widths_of(self.image_sizes))
    }

    /// Height of every cell: that of the tallest image.
    pub open spec fn max_height(self) -> int {
        max_of(heights_of(self.image_sizes))
    }

    pub open spec fn has_labels(self) -> bool {
        self.config.row_labels@.len() != 0 || self.config.column_labels@.len() != 0
    }

    /// Space left of the grid: none without row labels, else the configured
    /// least padding or the widest row label and its margin, whichever is more.
    pub open spec fn left_padding(self) -> int {
        if self.config.row_labels@.len() == 0 {
            0
        } else {
            max_int(
                self.config.left_padding as int,
                max_of(label_widths(self.row_label_sizes)) + LABEL_MARGIN,
            )
        }
    }

    /// Space above the grid, and above each row: none without column labels,
    /// else the configured least padding or the tallest column label and its
    /// margin, whichever is more.
    pub open spec fn top_padding(self) -> int {
        if self.config.column_labels@.len() == 0 {
            0
        } else {
            max_int(
                self.config.top_padding as int,
                max_of(label_heights(self.column_label_sizes)) + LABEL_MARGIN,
            )
        }
    }

    pub open spec fn canvas_width(self) -> int {
        self.max_width() * self.columns() + self.left_padding()
    }

    pub open spec fn canvas_height(self) -> int {
        (self.max_height() + self.top_padding()) * self.config.rows + self.top_padding()
    }

    /// The canvas and every label on it can be placed with `i32` coordinates.
    pub open spec fn fits(self) -> bool {
        &&& self.canvas_width() <= i32::MAX
        &&& self.canvas_height() <= i32::MAX
        &&& max_of(label_widths(self.column_label_sizes)) <= i32::MAX
    }

    /// Whether planning succeeds, and with which error it fails.
    pub open spec fn outcome(self) -> Result<(), PlotError> {
        match config_outcome(self.config) {
            Err(e) => Err(e),
            Ok(_) => if self.fits() {
                Ok(())
            } else {
                Err(PlotError::CanvasTooLarge)
            },
        }
    }

    /// The padding regions, kept for the layout diagram.
    pub open spec fn padding_views(self) -> Seq<ElementView> {
        let left = self.left_padding();
        let left_band = if left > 0 {
            seq![
                ElementView::Padding {
                    rect: rect_at(0, 0, left, self.canvas_height()),
                    description: "Left padding for row labels"@,
                },
            ]
        } else {
            Seq::empty()
        };
        let top_band = if self.has_labels() {
            seq![
                ElementView::Padding {
                    rect: rect_at(left, 0, self.canvas_width() - left, self.top_padding()),
                    description: "Top padding for column labels"@,
                },
            ]
        } else {
            Seq::empty()
        };
        left_band + top_band
    }

    /// Left edge of the image of column `c` in the first row.
    pub open spec fn image_left(self, c: int) -> int {
        c * self.max_width() + self.left_padding() + (self.max_width() - self.image_sizes[c].0)
            / 2
    }

    /// Left edge of the label of column `c`: aligned over the image of that
    /// column in the first row.
    pub open spec fn column_label_x(self, c: int) -> int {
        self.image_left(c) + aligned_offset(
            self.config.column_label_alignment,
            self.image_sizes[c].0 as int,
            self.column_label_sizes[c].width as int,
        )
    }

    /// The label of column `c`, centred vertically in the top band.
    pub open spec fn column_label_view(self, c: int) -> ElementView {
        let label = self.column_label_sizes[c];
        ElementView::ColumnLabel {
            rect: rect_at(
                self.column_label_x(c),
                (self.top_padding() - label.height) / 2,
                label.width as int,
                label.height as int,
            ),
            text: self.config.column_labels@[c]@,
        }
    }

    pub open spec fn column_label_views(self) -> Seq<ElementView> {
        Seq::new(self.config.column_labels@.len(), |c: int| self.column_label_view(c))
    }

    /// The image `j`, centred in its cell; before the first image of a row, that row's label.
    pub open spec fn cell_views(self, j: int) -> Seq<ElementView> {
        let row = j / self.columns();
        let col = j % self.columns();
        let cell_x = col * self.max_width() + self.left_padding();
        let cell_y = row * (self.max_height() + self.top_padding()) + self.top_padding();
        let (w, h) = self.image_sizes[j];
        let image = ElementView::Image {
            rect: rect_at(
                cell_x + (self.max_width() - w) / 2,
                cell_y + (self.max_height() - h) / 2,
                w as int,
                h as int,
            ),
            path: self.config.images@[j]@,
        };
        if col == 0 && row < self.config.row_labels@.len() {
            let label = self.row_label_sizes[row];
            let row_label = ElementView::RowLabel {
                rect: rect_at(
                    ROW_LABEL_INSET + aligned_offset(
                        self.config.row_label_alignment,
                        self.left_padding() - LABEL_MARGIN,
                        label.width as int,
                    ),
                    cell_y + self.max_height() / 2 - label.height / 2,
                    label.width as int,
                    label.height as int,
                ),
                text: self.config.row_labels@[row]@,
            };
            seq![row_label, image]
        } else {
            seq![image]
        }
    }

    /// The elements of the first `i` images, in order.
    pub open spec fn cells_upto(self, i: int) -> Seq<ElementView>
        decreases i,
    {
        if i <= 0 {
            Seq::empty()
        } else {
            self.cells_upto(i - 1) + self.cell_views(i - 1)
        }
    }

    /// All elements of the layout, in drawing order.
    pub open spec fn element_views(self) -> Seq<ElementView> {
        self.padding_views() + self.column_label_views() + self.cells_upto(
            self.image_sizes.len() as int,
        )
    }
}

proof fn lemma_slot_fits(k: int, count: int, size: int)
    requires
        0 <= k < count,
        size >= 0,
    ensures
        0 <= k * size,
        k * size + size <= size * count,
{
    assert(0 <= k * size) by (nonlinear_arith)
        requires
            0 <= k,
            size >= 0,
    ;
    assert(k * size + size <= size * count) by (nonlinear_arith)
        requires
            0 <= k < count,
            size >= 0,
    ;
}

/// Lays out the grid described by `config`, given the size of every image
/// and label and the number of columns. Fails only when the canvas does not
/// fit the coordinate space.
fn calculate_layout(
    config: &PlotConfig,
    image_sizes: &Vec<(u32, u32)>,
    row_label_sizes: &Vec<LabelSize>,
    column_label_sizes: &Vec<LabelSize>,
    max_width: u32,
    max_height: u32,
    cols: u32,
) -> (r: Result<Layout, PlotError>)
    requires
        plot_inputs(*config, image_sizes@, row_label_sizes@, column_label_sizes@).well_formed(),
        config_outcome(*config) == Ok::<u32, PlotError>(cols),
        max_width == max_of(widths_of(image_sizes@)),
        max_height == max_of(heights_of(image_sizes@)),
    ensures
        ({
            let inputs = plot_inputs(*config, image_sizes@, row_label_sizes@, column_label_sizes@);
            match r {
                Ok(layout) => {
                    &&& inputs.fits()
                    &&& layout.total_width == inputs.canvas_width()
                    &&& layout.total_height == inputs.canvas_height()
                    &&& layout.element_views() == inputs.element_views()
                },
                Err(e) => !inputs.fits() && e == PlotError::CanvasTooLarge,
            }
        }),
{
    let ghost inputs = plot_inputs(*config, image_sizes@, row_label_sizes@, column_label_sizes@);
    let n = image_sizes.len();
    let rows = config.rows;
    proof {
        lemma_column_count(n as int, rows as int);
        assert(cols == inputs.columns());
        lemma_max_of_bounds(widths_of(image_sizes@));
        lemma_max_of_bounds(heights_of(image_sizes@));
        lemma_max_of_bounds(label_widths(row_label_sizes@));
        lemma_max_of_bounds(label_heights(row_label_sizes@));
        lemma_max_of_bounds(label_widths(column_label_sizes@));
        lemma_max_of_bounds(label_heights(column_label_sizes@));
    }
    let row_extent = max_label_extent(row_label_sizes);
    let column_extent = max_label_extent(column_label_sizes);
    let left: u64 = if config.row_labels.len() == 0 {
        0
    } else if config.left_padding as u64 >= row_extent.width as u64 + LABEL_MARGIN as u64 {
        config.left_padding as u64
    } else {
        row_extent.width as u64 + LABEL_MARGIN as u64
    };
    let top: u64 = if config.column_labels.len() == 0 {
        0
    } else if config.top_padding as u64 >= column_extent.height as u64 + LABEL_MARGIN as u64 {
        config.top_padding as u64
    } else {
        column_extent.height as u64 + LABEL_MARGIN as u64
    };
    assert(left == inputs.left_padding());
    assert(top == inputs.top_padding());
    proof {
        assert((max_width as int) * (cols as int) <= 0xffff_ffff * 0xffff_ffff) by (nonlinear_arith)
            requires
                max_width <= 0xffff_ffffu32,
                cols <= 0xffff_ffffu32,
        ;
        assert((max_height as int + top as int) * (rows as int) <= 0x2_0000_0014 * 0xffff_ffff)
            by (nonlinear_arith)
            requires
                max_height as int + top as int <= 0x2_0000_0014,
                rows <= 0xffff_ffffu32,
        ;
    }
    let width_total: u128 = (max_width as u128) * (cols as u128) + left as u128;
    let height_total: u128 = (max_height as u128 + top as u128) * (rows as u128) + top as u128;
    if width_total > i32::MAX as u128 || height_total > i32::MAX as u128 || column_extent.width
        > i32::MAX as u32 {
        return Err(PlotError::CanvasTooLarge);
    }
    assert(inputs.fits());
    let canvas_width = width_total as u64;
    let canvas_height = height_total as u64;
    proof {
        assert(left <= canvas_width && top <= canvas_height) by (nonlinear_arith)
            requires
                canvas_width == (max_width as int) * (cols as int) + left,
                canvas_height == (max_height as int + top as int) * (rows as int) + top,
                max_width >= 0,
                cols >= 0,
                max_height >= 0,
                rows >= 0,
        ;
    }
    let mut layout = Layout::new(canvas_width as u32, canvas_height as u32);
    let ghost empty = layout.element_views();
    if left > 0 {
        layout.add_element(
            LayoutElement::Padding {
                rect: LayoutRect {
                    x: 0,
                    y: 0,
                    width: left as u32,
                    height: canvas_height as u32,
                },
                description: String::from_str("Left padding for row labels"),
            },
        );
    }
    if config.row_labels.len() != 0 || config.column_labels.len() != 0 {
        layout.add_element(
            LayoutElement::Padding {
                rect: LayoutRect {
                    x: left as i32,
                    y: 0,
                    width: (canvas_width - left) as u32,
                    height: top as u32,
                },
                description: String::from_str("Top padding for column labels"),
            },
        );
    }
    assert(layout.element_views() =~= inputs.padding_views());

    let n_column_labels = config.column_labels.len();
    let mut c: usize = 0;
    while c < n_column_labels
        invariant
            inputs == plot_inputs(*config, image_sizes@, row_label_sizes@, column_label_sizes@),
            inputs.well_formed(),
            inputs.fits(),
            n_column_labels == config.column_labels@.len(),
            n_column_labels == 0 || n_column_labels == cols,
            cols <= n,
            n == image_sizes@.len(),
            c <= n_column_labels,
            cols == inputs.columns(),
            left == inputs.left_padding(),
            top == inputs.top_padding(),
            max_width == inputs.max_width(),
            max_height == inputs.max_height(),
            canvas_width == inputs.canvas_width(),
            canvas_width == (max_width as int) * (cols as int) + left,
            0 <= max_width <= u32::MAX,
            top <= i32::MAX,
            forall|i: int| 0 <= i < n ==> widths_of(image_sizes@)[i] <= max_width,
            forall|i: int|
                0 <= i < column_label_sizes@.len() ==> label_widths(column_label_sizes@)[i]
                    <= max_of(label_widths(column_label_sizes@)),
            forall|i: int|
                0 <= i < column_label_sizes@.len() ==> label_heights(column_label_sizes@)[i]
                    <= max_of(label_heights(column_label_sizes@)),
            max_of(label_widths(column_label_sizes@)) <= i32::MAX,
            layout.total_width == canvas_width,
            layout.total_height == inputs.canvas_height(),
            layout.element_views() == inputs.padding_views() + Seq::new(
                c as nat,
                |k: int| inputs.column_label_view(k),
            ),
        decreases n_column_labels - c,
    {
        let ghost before = layout.element_views();
        let (image_width, _) = image_sizes[c];
        let label = column_label_sizes[c];
        proof {
            assert(widths_of(image_sizes@)[c as int] == image_width);
            assert(label_widths(column_label_sizes@)[c as int] == label.width);
            assert(label_heights(column_label_sizes@)[c as int] == label.height);
            lemma_slot_fits(c as int, cols as int, max_width as int);
        }
        let image_x: i64 = (c as i64) * (max_width as i64) + left as i64 + ((max_width
            - image_width) / 2) as i64;
        let offset: i64 = match config.column_label_alignment {
            LabelAlignment::Start => 0,
            LabelAlignment::Center => if image_width >= label.width {
                ((image_width - label.width) / 2) as i64
            } else {
                -((((label.width - image_width) as u64 + 1) / 2) as i64)
            },
            LabelAlignment::End => image_width as i64 - label.width as i64,
        };
        assert(offset == aligned_offset(
            config.column_label_alignment,
            image_width as int,
            label.width as int,
        ));
        let y = ((top - label.height as u64) / 2) as i32;
        let element = LayoutElement::ColumnLabel {
            rect: LayoutRect {
                x: (image_x + offset) as i32,
                y,
                width: label.width,
                height: label.height,
            },
            text: config.column_labels[c].clone(),
        };
        assert(element@ == inputs.column_label_view(c as int));
        layout.add_element(element);
        c = c + 1;
        proof {
            assert(layout.element_views() =~= inputs.padding_views() + Seq::new(
                c as nat,
                |k: int| inputs.column_label_view(k),
            ));
        }
    }
    assert(layout.element_views() =~= inputs.padding_views() + inputs.column_label_views());
    let ghost head = layout.element_views();
    proof {
        assert(head + inputs.cells_upto(0) =~= head);
    }
    let row_band: u64 = max_height as u64 + top;
    let mut i: usize = 0;
    while i < n
        invariant
            inputs == plot_inputs(*config, image_sizes@, row_label_sizes@, column_label_sizes@),
            inputs.well_formed(),
            inputs.fits(),
            n == image_sizes@.len(),
            i <= n,
            n <= u32::MAX,
            rows == config.rows,
            rows >= 1,
            cols == inputs.columns(),
            cols as int * rows as int >= n,
            left == inputs.left_padding(),
            top == inputs.top_padding(),
            row_band == max_height + top,
            max_width == inputs.max_width(),
            max_height == inputs.max_height(),
            canvas_width == (max_width as int) * (cols as int) + left,
            canvas_height == (max_height as int + top as int) * (rows as int) + top,
            canvas_width <= i32::MAX,
            canvas_height <= i32::MAX,
            0 <= max_width <= u32::MAX,
            0 <= max_height <= u32::MAX,
            forall|k: int| 0 <= k < n ==> widths_of(image_sizes@)[k] <= max_width,
            forall|k: int| 0 <= k < n ==> heights_of(image_sizes@)[k] <= max_height,
            forall|k: int|
                0 <= k < row_label_sizes@.len() ==> label_widths(row_label_sizes@)[k] <= max_of(
                    label_widths(row_label_sizes@),
                ),
            config.row_labels@.len() != 0 ==> left >= max_of(label_widths(row_label_sizes@))
                + LABEL_MARGIN,
            layout.total_width == inputs.canvas_width(),
            layout.total_height == inputs.canvas_height(),
            layout.element_views() == head + inputs.cells_upto(i as int),
        decreases n - i,
    {
        let ghost before = layout.element_views();
        proof {
            lemma_multiply_divide_lt(i as int, cols as int, rows as int);
            lemma_mod_pos_bound(i as int, cols as int);
            lemma_div_pos_is_pos(i as int, cols as int);
        }
        let row: u32 = (i as u32) / cols;
        let col: u32 = (i as u32) % cols;
        proof {
            lemma_slot_fits(col as int, cols as int, max_width as int);
            lemma_slot_fits(row as int, rows as int, row_band as int);
        }
        let cell_x: u64 = (col as u64) * (max_width as u64) + left;
        let cell_y: u64 = (row as u64) * row_band + top;
        if col == 0 && (row as usize) < config.row_labels.len() {
            let label = row_label_sizes[row as usize];
            proof {
                assert(label_widths(row_label_sizes@)[row as int] == label.width);
            }
            let span: u64 = left - LABEL_MARGIN as u64;
            let offset: u64 = match config.row_label_alignment {
                LabelAlignment::Start => 0,
                LabelAlignment::Center => (span - label.width as u64) / 2,
                LabelAlignment::End => span - label.width as u64,
            };
            assert(offset == aligned_offset(
                config.row_label_alignment,
                left - LABEL_MARGIN,
                label.width as int,
            ));
            let y: i64 = cell_y as i64 + (max_height / 2) as i64 - (label.height / 2) as i64;
            let element = LayoutElement::RowLabel {
                rect: LayoutRect {
                    x: (ROW_LABEL_INSET as u64 + offset) as i32,
                    y: y as i32,
                    width: label.width,
                    height: label.height,
                },
                text: config.row_labels[row as usize].clone(),
            };
            layout.add_element(element);
        }
        let (w, h) = image_sizes[i];
        proof {
            assert(widths_of(image_sizes@)[i as int] == w);
            assert(heights_of(image_sizes@)[i as int] == h);
        }
        let image = LayoutElement::Image {
            rect: LayoutRect {
                x: (cell_x + ((max_width - w) / 2) as u64) as i32,
                y: (cell_y + ((max_height - h) / 2) as u64) as i32,
                width: w,
                height: h,
            },
            path: config.images[i].clone(),
        };
        layout.add_element(image);
        proof {
            assert(layout.element_views() =~= before + inputs.cell_views(i as int));
            assert(head + inputs.cells_upto(i + 1) =~= head + inputs.cells_upto(i as int)
                + inputs.cell_views(i as int));
        }
        i = i + 1;
    }
    Ok(layout)
}

/// Whether `layout` is the layout planned for `inputs`.
pub open spec fn planned(inputs: PlotInputs, layout: Layout) -> bool {
    &&& layout.total_width == inputs.canvas_width()
    &&& layout.total_height == inputs.canvas_height()
    &&& layout.element_views() == inputs.element_views()
}

/// Plans the grid: validates `config` against the number of images, then
/// places every label, image and padding region. `image_sizes`,
/// `row_label_sizes` and `column_label_sizes` give the measured size of each
/// image and label of `config`, index by index.
pub fn plan_layout(
    config: &PlotConfig,
    image_sizes: &Vec<(u32, u32)>,
    row_label_sizes: &Vec<LabelSize>,
    column_label_sizes: &Vec<LabelSize>,
) -> (r: Result<Layout, PlotError>)
    requires
        plot_inputs(*config, image_sizes@, row_label_sizes@, column_label_sizes@).well_formed(),
    ensures
        ({
            let inputs = plot_inputs(*config, image_sizes@, row_label_sizes@, column_label_sizes@);
            match r {
                Ok(layout) => inputs.outcome() == Ok::<(), PlotError>(()) && planned(inputs, layout),
                Err(e) => inputs.outcome() == Err::<(), PlotError>(e),
            }
        }),
{
    let cols = match validate_plot_config(config) {
        Ok(cols) => cols,
        Err(e) => {
            return Err(e);
        },
    };
    let (max_width, max_height) = find_max_dimensions(image_sizes);
    calculate_layout(
        config,
        image_sizes,
        row_label_sizes,
        column_label_sizes,
        max_width,
        max_height,
        cols,
    )
}

/// Without labels there is no padding: the canvas is exactly the grid of
/// cells, as wide as the widest image times the columns and as tall as the
/// tallest image times the rows, whatever paddings are configured.
pub proof fn unlabelled_canvas_is_the_grid(inputs: PlotInputs, layout: Layout)
    requires
        inputs.config.row_labels@.len() == 0,
        inputs.config.column_labels@.len() == 0,
    ensures
        inputs.left_padding() == 0,
        inputs.top_padding() == 0,
        inputs.canvas_width() == inputs.max_width() * inputs.columns(),
        inputs.canvas_height() == inputs.max_height() * inputs.config.rows,
        planned(inputs, layout) ==> layout.total_width == inputs.max_width() * inputs.columns()
            && layout.total_height == inputs.max_height() * inputs.config.rows,
{
}

/// A single image without labels gives a canvas of exactly that image's
/// size, whatever paddings are configured.
pub proof fn single_unlabelled_image_keeps_its_size(inputs: PlotInputs, layout: Layout)
    requires
        inputs.image_sizes.len() == 1,
        inputs.config.images@.len() == 1,
        inputs.config.rows == 1,
        inputs.config.row_labels@.len() == 0,
        inputs.config.column_labels@.len() == 0,
    ensures
        inputs.canvas_width() == inputs.image_sizes[0].0,
        inputs.canvas_height() == inputs.image_sizes[0].1,
        inputs.element_views() == seq![
            ElementView::Image {
                rect: rect_at(0, 0, inputs.image_sizes[0].0 as int, inputs.image_sizes[0].1 as int),
                path: inputs.config.images@[0]@,
            },
        ],
        planned(inputs, layout) ==> layout.total_width == inputs.image_sizes[0].0
            && layout.total_height == inputs.image_sizes[0].1 && layout.element_views()
            == inputs.element_views(),
{
    let s = inputs.image_sizes;
    assert(widths_of(s).drop_last() =~= Seq::<u32>::empty());
    assert(heights_of(s).drop_last() =~= Seq::<u32>::empty());
    assert(max_of(widths_of(s).drop_last()) == 0);
    assert(max_of(heights_of(s).drop_last()) == 0);
    assert(widths_of(s)[0] == s[0].0);
    assert(heights_of(s)[0] == s[0].1);
    assert(max_of(widths_of(s)) == s[0].0);
    assert(max_of(heights_of(s)) == s[0].1);
    assert(inputs.columns() == 1);
    assert(inputs.cells_upto(0) =~= Seq::<ElementView>::empty());
    assert(inputs.cell_views(0) =~= inputs.cells_upto(1));
    assert(inputs.column_label_views() =~= Seq::<ElementView>::empty());
    assert(inputs.padding_views() =~= Seq::<ElementView>::empty());
    assert(inputs.element_views() =~= inputs.cell_views(0));
}

/// Row labels whose number is neither zero nor the number of rows are
/// refused, and the error carries both counts.
pub proof fn row_label_count_mismatch_is_refused(inputs: PlotInputs)
    requires
        inputs.config.row_labels@.len() != 0,
        inputs.config.row_labels@.len() != inputs.config.rows,
    ensures
        inputs.outcome() == Err::<(), PlotError>(
            PlotError::RowLabelCount {
                given: inputs.config.row_labels@.len() as usize,
                rows: inputs.config.rows,
            },
        ),
{
}

/// In an otherwise valid grid, column labels whose number is neither zero nor
/// the number of columns are refused, and the error carries both counts.
pub proof fn column_label_count_mismatch_is_refused(inputs: PlotInputs)
    requires
        inputs.config.row_labels@.len() == 0 || inputs.config.row_labels@.len()
            == inputs.config.rows,
        inputs.config.rows >= 1,
        inputs.config.images@.len() <= u32::MAX,
        inputs.config.column_labels@.len() != 0,
        inputs.config.column_labels@.len() != column_count(
            inputs.config.images@.len() as int,
            inputs.config.rows as int,
        ),
    ensures
        inputs.outcome() == Err::<(), PlotError>(
            PlotError::ColumnLabelCount {
                given: inputs.config.column_labels@.len() as usize,
                columns: column_count(
                    inputs.config.images@.len() as int,
                    inputs.config.rows as int,
                ) as u32,
            },
        ),
{
}

proof fn lemma_max_monotone(a: Seq<u32>, b: Seq<u32>)
    requires
        a.len() == b.len(),
        forall|i: int| 0 <= i < a.len() ==> a[i] <= b[i],
    ensures
        max_of(a) <= max_of(b),
    decreases a.len(),
{
    if a.len() > 0 {
        lemma_max_monotone(a.drop_last(), b.drop_last());
    }
}

/// Widening row labels never narrows the canvas: the left padding grows with
/// the widest row label.
pub proof fn wider_row_labels_never_narrow_the_canvas(
    narrow: PlotInputs,
    wide: PlotInputs,
    narrow_layout: Layout,
    wide_layout: Layout,
)
    requires
        narrow.config == wide.config,
        narrow.image_sizes == wide.image_sizes,
        narrow.row_label_sizes.len() == wide.row_label_sizes.len(),
        forall|i: int|
            0 <= i < narrow.row_label_sizes.len() ==> narrow.row_label_sizes[i].width
                <= wide.row_label_sizes[i].width,
    ensures
        narrow.left_padding() <= wide.left_padding(),
        narrow.canvas_width() <= wide.canvas_width(),
        planned(narrow, narrow_layout) && planned(wide, wide_layout)
            ==> narrow_layout.total_width <= wide_layout.total_width,
{
    lemma_max_monotone(label_widths(narrow.row_label_sizes), label_widths(wide.row_label_sizes));
}

/// Taller column labels never lower the top padding; once the tallest label
/// outgrows the configured least padding, a taller one raises it.
pub proof fn taller_column_labels_raise_the_top_padding(
    short: PlotInputs,
    tall: PlotInputs,
    short_layout: Layout,
    tall_layout: Layout,
)
    requires
        short.config == tall.config,
        short.image_sizes == tall.image_sizes,
        short.config.column_labels@.len() != 0,
        short.column_label_sizes.len() == tall.column_label_sizes.len(),
        forall|i: int|
            0 <= i < short.column_label_sizes.len() ==> short.column_label_sizes[i].height
                <= tall.column_label_sizes[i].height,
    ensures
        short.top_padding() <= tall.top_padding(),
        max_of(label_heights(short.column_label_sizes)) < max_of(
            label_heights(tall.column_label_sizes),
        ) && tall.config.top_padding < max_of(label_heights(tall.column_label_sizes))
            + LABEL_MARGIN ==> short.top_padding() < tall.top_padding(),
        short.canvas_height() <= tall.canvas_height(),
        short.top_padding() < tall.top_padding() ==> short.canvas_height() < tall.canvas_height(),
        planned(short, short_layout) && planned(tall, tall_layout)
            ==> short_layout.total_height <= tall_layout.total_height && (short.top_padding()
            < tall.top_padding() ==> short_layout.total_height < tall_layout.total_height),
{
    lemma_max_monotone(
        label_heights(short.column_label_sizes),
        label_heights(tall.column_label_sizes),
    );
    let m = short.max_height();
    let rows = short.config.rows as int;
    let a = short.top_padding();
    let b = tall.top_padding();
    lemma_max_of_bounds(heights_of(short.image_sizes));
    assert((m + a) * rows + a <= (m + b) * rows + b) by (nonlinear_arith)
        requires
            a <= b,
            rows >= 0,
    ;
    assert(a < b ==> (m + a) * rows + a < (m + b) * rows + b) by (nonlinear_arith)
        requires
            rows >= 0,
    ;
}

/// Column labels sit where their alignment puts them: `Start` at the left
/// edge of the column's image, `End` flush with its right edge, `Center`
/// centred over it to within half a pixel.
pub proof fn column_labels_follow_their_alignment(inputs: PlotInputs, layout: Layout, c: int)
    requires
        inputs.well_formed(),
        inputs.outcome() == Ok::<(), PlotError>(()),
        0 <= c < inputs.config.column_labels@.len(),
    ensures
        inputs.column_label_view(c).rect().x == inputs.column_label_x(c),
        planned(inputs, layout) ==> layout.element_views()[inputs.padding_views().len() + c]
            == inputs.column_label_view(c),
        inputs.config.column_label_alignment == LabelAlignment::Start ==> inputs.column_label_x(
            c,
        ) == inputs.image_left(c),
        inputs.config.column_label_alignment == LabelAlignment::End ==> inputs.column_label_x(c)
            + inputs.column_label_sizes[c].width == inputs.image_left(c)
            + inputs.image_sizes[c].0,
        inputs.config.column_label_alignment == LabelAlignment::Center ==> {
            let slack = 2 * (inputs.column_label_x(c) - inputs.image_left(c)) + inputs.column_label_sizes[c].width
                - inputs.image_sizes[c].0;
            -1 <= slack <= 0
        },
{
    let n = inputs.image_sizes.len() as int;
    let rows = inputs.config.rows as int;
    let cols = inputs.columns();
    lemma_column_count(n, rows);
    lemma_max_of_bounds(widths_of(inputs.image_sizes));
    lemma_max_of_bounds(label_widths(inputs.column_label_sizes));
    lemma_max_of_bounds(label_widths(inputs.row_label_sizes));
    assert(cols == inputs.config.column_labels@.len());
    lemma_slot_fits(c, cols, inputs.max_width());
    assert(widths_of(inputs.image_sizes)[c] == inputs.image_sizes[c].0);
    assert(label_widths(inputs.column_label_sizes)[c] == inputs.column_label_sizes[c].width);
    assert(0 <= inputs.max_width() * cols);
}

/// Planning depends on its inputs alone: two layouts planned for the same
/// inputs have the same size and the same elements in the same order.
pub proof fn planning_is_deterministic(inputs: PlotInputs, first: Layout, second: Layout)
    requires
        planned(inputs, first),
        planned(inputs, second),
    ensures
        first.total_width == second.total_width,
        first.total_height == second.total_height,
        first.element_views() == second.element_views(),
{
}

/// The stem of the file named by `path`, as std's `Path::file_stem` finds it.
pub uninterp spec fn path_file_stem(path: Seq<char>) -> Option<Seq<char>>;

/// `path` with its file name replaced by `name`, as std's `Path::with_file_name` builds it.
pub uninterp spec fn path_with_file_name(path: Seq<char>, name: Seq<char>) -> Seq<char>;

/// Relies on std's `Path::file_stem`: the file name without its extension,
/// `None` where the path has no file name; a path made from a `str` gives
/// back text, so `to_str` cannot fail.
#[verifier::external_body]
fn file_stem_of(path: &str) -> (r: Option<String>)
    ensures
        r.is_some() == path_file_stem(path@).is_some(),
        r.is_some() ==> r.unwrap()@ == path_file_stem(path@).unwrap(),
{
    std::path::Path::new(path).file_stem().and_then(|s| s.to_str()).map(|s| s.to_owned())
}

/// Relies on std's `Path::with_file_name`: `path` with its last component
/// replaced by `name`; joined from two `str`s, the result is text.
#[verifier::external_body]
fn with_file_name(path: &str, name: &str) -> (r: String)
    ensures
        r@ == path_with_file_name(path@, name@),
{
    std::path::Path::new(path).with_file_name(name).to_string_lossy().into_owned()
}

/// The file name of the layout diagram written beside a plot whose file has
/// stem `stem` and extension `extension`: the stem, "_debug", then the
/// extension if there is one.
pub open spec fn debug_file_name(stem: Seq<char>, extension: Option<Seq<char>>) -> Seq<char> {
    match extension {
        Some(ext) => stem + "_debug."@ + ext,
        None => stem + "_debug"@,
    }
}

/// Where the layout diagram of a plot written to `output` goes: beside it,
/// named after it with "_debug" before the extension. `None` where `output`
/// names no file.
pub fn debug_output_path(output: &str) -> (r: Option<String>)
    ensures
        r.is_some() == path_file_stem(output@).is_some(),
        r.is_some() ==> r.unwrap()@ == path_with_file_name(
            output@,
            debug_file_name(path_file_stem(output@).unwrap(), path_extension(output@)),
        ),
{
    let stem = match file_stem_of(output) {
        Some(stem) => stem,
        None => {
            return None;
        },
    };
    let mut name = stem;
    match extension_of(output) {
        Some(ext) => {
            name.append("_debug.");
            name.append(ext.as_str());
        },
        None => {
            name.append("_debug");
        },
    }
    Some(with_file_name(output, name.as_str()))
}

} // verus!
