use imx::xyplot::{debug_output_path, DEFAULT_LEFT_PADDING, DEFAULT_TOP_PADDING};
use imx::{plan_layout, LabelAlignment, LabelSize, Layout, LayoutElement, LayoutRect, PlotConfig, PlotError};

fn config(images: usize, rows: u32, row_labels: &[&str], column_labels: &[&str]) -> PlotConfig {
    PlotConfig {
        images: (0..images).map(|i| format!("test{i}.png")).collect(),
        output: "output.png".to_string(),
        rows,
        row_labels: row_labels.iter().map(|s| s.to_string()).collect(),
        column_labels: column_labels.iter().map(|s| s.to_string()).collect(),
        column_label_alignment: LabelAlignment::Center,
        row_label_alignment: LabelAlignment::Center,
        debug_mode: false,
        top_padding: DEFAULT_TOP_PADDING,
        left_padding: DEFAULT_LEFT_PADDING,
    }
}

fn size(width: u32, height: u32) -> LabelSize {
    LabelSize { width, height }
}

fn plan(c: &PlotConfig, images: &[(u32, u32)], rows: &[LabelSize], cols: &[LabelSize]) -> Result<Layout, PlotError> {
    plan_layout(c, &images.to_vec(), &rows.to_vec(), &cols.to_vec())
}

fn rect(x: i32, y: i32, width: u32, height: u32) -> LayoutRect {
    LayoutRect { x, y, width, height }
}

fn image_rects(layout: &Layout) -> Vec<LayoutRect> {
    layout
        .elements
        .iter()
        .filter_map(|e| match e {
            LayoutElement::Image { rect, .. } => Some(*rect),
            _ => None,
        })
        .collect()
}

fn column_label_rects(layout: &Layout) -> Vec<LayoutRect> {
    layout
        .elements
        .iter()
        .filter_map(|e| match e {
            LayoutElement::ColumnLabel { rect, .. } => Some(*rect),
            _ => None,
        })
        .collect()
}

fn row_label_rects(layout: &Layout) -> Vec<LayoutRect> {
    layout
        .elements
        .iter()
        .filter_map(|e| match e {
            LayoutElement::RowLabel { rect, .. } => Some(*rect),
            _ => None,
        })
        .collect()
}

#[test]
fn basic_grid_without_labels() {
    let layout = plan(&config(2, 1, &[], &[]), &[(100, 100), (100, 100)], &[], &[]).unwrap();
    assert_eq!((layout.total_width, layout.total_height), (200, 100));
    assert_eq!(layout.elements.len(), 2);
    assert_eq!(image_rects(&layout), vec![rect(0, 0, 100, 100), rect(100, 0, 100, 100)]);
    match &layout.elements[1] {
        LayoutElement::Image { path, .. } => assert_eq!(path, "test1.png"),
        other => panic!("unexpected element {other:?}"),
    }
}

#[test]
fn grid_with_row_and_column_labels() {
    let c = config(2, 1, &["Row 1"], &["Col 1", "Col 2"]);
    let layout = plan(&c, &[(100, 100), (100, 100)], &[size(60, 29)], &[size(50, 29), size(50, 29)]).unwrap();
    // left = max(40, 60 + 20), top = max(40, 29 + 20)
    assert_eq!((layout.total_width, layout.total_height), (280, 198));
    match &layout.elements[0] {
        LayoutElement::Padding { rect: r, description } => {
            assert_eq!(*r, rect(0, 0, 80, 198));
            assert_eq!(description, "Left padding for row labels");
        }
        other => panic!("unexpected element {other:?}"),
    }
    match &layout.elements[1] {
        LayoutElement::Padding { rect: r, description } => {
            assert_eq!(*r, rect(80, 0, 200, 49));
            assert_eq!(description, "Top padding for column labels");
        }
        other => panic!("unexpected element {other:?}"),
    }
    assert_eq!(column_label_rects(&layout), vec![rect(105, 10, 50, 29), rect(205, 10, 50, 29)]);
    assert_eq!(row_label_rects(&layout), vec![rect(10, 85, 60, 29)]);
    assert_eq!(image_rects(&layout), vec![rect(80, 49, 100, 100), rect(180, 49, 100, 100)]);
    match &layout.elements[4] {
        LayoutElement::RowLabel { text, .. } => assert_eq!(text, "Row 1"),
        other => panic!("unexpected element {other:?}"),
    }
}

#[test]
fn mismatched_row_labels_are_refused_with_both_counts() {
    let c = config(1, 1, &["Row 1", "Row 2"], &[]);
    let r = plan(&c, &[(100, 100)], &[size(50, 29), size(50, 29)], &[]);
    assert_eq!(r.unwrap_err(), PlotError::RowLabelCount { given: 2, rows: 1 });
}

#[test]
fn mismatched_column_labels_are_refused_with_both_counts() {
    let c = config(1, 1, &[], &["Col 1", "Col 2"]);
    let r = plan(&c, &[(100, 100)], &[], &[size(50, 29), size(50, 29)]);
    assert_eq!(r.unwrap_err(), PlotError::ColumnLabelCount { given: 2, columns: 1 });
}

#[test]
fn zero_rows_are_refused() {
    let r = plan(&config(1, 0, &[], &[]), &[(100, 100)], &[], &[]);
    assert_eq!(r.unwrap_err(), PlotError::NoRows);
}

#[test]
fn oversized_canvas_is_refused() {
    let r = plan(&config(2, 1, &[], &[]), &[(u32::MAX, 10), (10, 10)], &[], &[]);
    assert_eq!(r.unwrap_err(), PlotError::CanvasTooLarge);
}

#[test]
fn unlabelled_canvas_is_exactly_the_cells() {
    let layout = plan(&config(3, 2, &[], &[]), &[(100, 80), (120, 60), (90, 90)], &[], &[]).unwrap();
    // two columns of the widest image, two rows of the tallest
    assert_eq!((layout.total_width, layout.total_height), (240, 180));
}

#[test]
fn zero_top_padding_single_image_keeps_its_size() {
    let mut c = config(1, 1, &[], &[]);
    c.top_padding = 0;
    let layout = plan(&c, &[(100, 100)], &[], &[]).unwrap();
    assert_eq!((layout.total_width, layout.total_height), (100, 100));
}

#[test]
fn long_row_label_widens_the_canvas() {
    let c = config(1, 1, &["This is a very long row label that should cause more padding"], &["Col 1"]);
    let mut last = 0;
    for width in [100, 300, 600] {
        let layout = plan(&c, &[(100, 100)], &[size(width, 29)], &[size(50, 29)]).unwrap();
        assert!(layout.total_width >= last);
        last = layout.total_width;
    }
    assert_eq!(last, 720);
    assert!(last > 500);
}

#[test]
fn column_label_alignments_in_a_single_cell() {
    for (alignment, expected_x) in [
        (LabelAlignment::Start, 0),
        (LabelAlignment::Center, 25),
        (LabelAlignment::End, 50),
    ] {
        let mut c = config(1, 1, &[], &["Test Label"]);
        c.column_label_alignment = alignment;
        let layout = plan(&c, &[(100, 100)], &[], &[size(50, 29)]).unwrap();
        assert_eq!(column_label_rects(&layout)[0].x, expected_x);
    }
}

#[test]
fn column_labels_follow_images_of_different_widths() {
    let mut c = config(2, 1, &["Test Row"], &["Tall", "Wide"]);
    c.left_padding = 0;
    let layout = plan(&c, &[(100, 200), (200, 100)], &[size(130, 29)], &[size(50, 29), size(80, 29)]).unwrap();
    // left padding 150, cells 200 wide: images start at 200 and 350
    assert_eq!(image_rects(&layout)[0].x, 200);
    assert_eq!(image_rects(&layout)[1].x, 350);
    let labels = column_label_rects(&layout);
    assert_eq!(labels[0].x, 225);
    assert_eq!(labels[1].x, 410);
}

#[test]
fn centred_label_wider_than_its_image_overhangs_both_sides() {
    let c = config(1, 1, &[], &["A rather wide label"]);
    let layout = plan(&c, &[(100, 100)], &[], &[size(151, 29)]).unwrap();
    assert_eq!(column_label_rects(&layout)[0].x, -26);
}

#[test]
fn row_label_alignments_in_the_left_band() {
    for (alignment, expected_x) in [
        (LabelAlignment::Start, 10),
        (LabelAlignment::Center, 20),
        (LabelAlignment::End, 30),
    ] {
        let mut c = config(1, 1, &["Test Row"], &[]);
        c.row_label_alignment = alignment;
        c.left_padding = 100;
        let layout = plan(&c, &[(100, 100)], &[size(60, 29)], &[]).unwrap();
        assert_eq!(row_label_rects(&layout)[0].x, expected_x);
    }
}

#[test]
fn multiline_column_labels_raise_the_top_padding() {
    let c = config(1, 1, &[], &["Column 1\nColumn 2"]);
    let single = plan(&c, &[(100, 100)], &[], &[size(90, 29)]).unwrap();
    let double = plan(&c, &[(100, 100)], &[], &[size(90, 58)]).unwrap();
    // top padding 49 against 78
    assert_eq!(single.total_height, 198);
    assert_eq!(double.total_height, 256);
    assert!(double.total_height > single.total_height);
}

#[test]
fn top_padding_variations() {
    for (padding, expected_height) in [(20, 198), (40, 198), (60, 220), (80, 260)] {
        let mut c = config(1, 1, &[], &["Test Label"]);
        c.top_padding = padding;
        let layout = plan(&c, &[(100, 100)], &[], &[size(100, 29)]).unwrap();
        assert_eq!(layout.total_height, expected_height);
        assert!(layout.total_height >= padding + 100);
        let label = column_label_rects(&layout)[0];
        let top = (expected_height as i32 - 100) / 2;
        assert!(label.y >= 0 && label.y + label.height as i32 <= top);
    }
}

#[test]
fn ninth_image_of_three_rows_lands_bottom_right() {
    let sizes = vec![(100, 100); 9];
    let layout = plan(&config(9, 3, &[], &[]), &sizes, &[], &[]).unwrap();
    assert_eq!((layout.total_width, layout.total_height), (300, 300));
    assert_eq!(image_rects(&layout)[8], rect(200, 200, 100, 100));
}

#[test]
fn images_are_centred_in_their_cells() {
    let layout = plan(&config(3, 1, &[], &[]), &[(100, 100), (200, 150), (150, 200)], &[], &[]).unwrap();
    assert_eq!((layout.total_width, layout.total_height), (600, 200));
    assert_eq!(
        image_rects(&layout),
        vec![rect(50, 50, 100, 100), rect(200, 25, 200, 150), rect(425, 0, 150, 200)]
    );
}

#[test]
fn one_row_label_per_row() {
    let c = config(4, 2, &["Top", "Bottom"], &[]);
    let layout = plan(&c, &[(100, 100); 4], &[size(40, 29), size(40, 29)], &[]).unwrap();
    assert_eq!(row_label_rects(&layout).len(), 2);
    assert_eq!(layout.elements.len(), 1 + 1 + 2 + 4);
}

#[test]
fn planning_twice_gives_the_same_layout() {
    let c = config(2, 1, &["Row"], &["A", "B"]);
    let first = plan(&c, &[(100, 80), (60, 100)], &[size(30, 29)], &[size(10, 29), size(12, 58)]).unwrap();
    let second = plan(&c, &[(100, 80), (60, 100)], &[size(30, 29)], &[size(10, 29), size(12, 58)]).unwrap();
    assert_eq!(format!("{first:?}"), format!("{second:?}"));
    let a = first.render_debug().into_rgb_bytes();
    let b = second.render_debug().into_rgb_bytes();
    assert_eq!(a, b);
}

#[test]
fn default_config() {
    let c = PlotConfig::default();
    assert!(c.images.is_empty());
    assert_eq!(c.output, "output.jpg");
    assert_eq!(c.rows, 1);
    assert_eq!(c.top_padding, 40);
    assert_eq!(c.left_padding, 40);
    assert_eq!(c.column_label_alignment, LabelAlignment::Center);
    assert!(!c.debug_mode);
}

#[test]
fn debug_diagram_goes_beside_the_plot() {
    assert_eq!(debug_output_path("dir/output.png"), Some("dir/output_debug.png".to_string()));
    assert_eq!(debug_output_path("output.tar.gz"), Some("output.tar_debug.gz".to_string()));
    assert_eq!(debug_output_path("output"), Some("output_debug".to_string()));
    assert_eq!(debug_output_path(".."), None);
}
