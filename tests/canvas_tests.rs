use imx::canvas::{blend_channel, blend_pixel};
use imx::{plan_layout, Canvas, LabelAlignment, LabelSize, Layout, LayoutElement, LayoutRect, PlotConfig};

fn solid(width: u32, height: u32, color: [u8; 3]) -> Canvas {
    Canvas::filled(width, height, color)
}

#[test]
fn filled_canvas_has_one_colour() {
    let c = solid(3, 2, [255, 255, 255]);
    assert_eq!((c.width(), c.height()), (3, 2));
    assert_eq!(c.pixel(2, 1), Some([255, 255, 255]));
    assert_eq!(c.pixel(3, 0), None);
    assert_eq!(c.into_rgb_bytes(), vec![255u8; 18]);
}

#[test]
fn rgb_bytes_round_trip() {
    let data: Vec<u8> = (0..12).collect();
    let c = Canvas::from_rgb_bytes(2, 2, data.clone()).unwrap();
    assert_eq!(c.pixel(1, 0), Some([3, 4, 5]));
    assert_eq!(c.pixel(0, 1), Some([6, 7, 8]));
    assert_eq!(c.into_rgb_bytes(), data);
    assert!(Canvas::from_rgb_bytes(2, 2, vec![0; 11]).is_none());
}

#[test]
fn draw_image_clips_at_the_edges() {
    let mut canvas = solid(4, 4, [255, 255, 255]);
    let image = solid(2, 2, [1, 2, 3]);
    canvas.draw_image(&image, -1, 3);
    assert_eq!(canvas.pixel(0, 3), Some([1, 2, 3]));
    assert_eq!(canvas.pixel(1, 3), Some([255, 255, 255]));
    assert_eq!(canvas.pixel(0, 2), Some([255, 255, 255]));
    canvas.draw_image(&image, 1, 1);
    assert_eq!(canvas.pixel(1, 1), Some([1, 2, 3]));
    assert_eq!(canvas.pixel(2, 2), Some([1, 2, 3]));
    assert_eq!(canvas.pixel(3, 3), Some([255, 255, 255]));
}

#[test]
fn blending_is_rounded_linear_interpolation() {
    assert_eq!(blend_channel(255, 0, 0), 255);
    assert_eq!(blend_channel(255, 0, 255), 0);
    assert_eq!(blend_channel(255, 0, 128), 127);
    assert_eq!(blend_channel(200, 100, 51), 180);
    assert_eq!(blend_channel(0, 255, 1), 1);
    assert_eq!(blend_pixel([255, 255, 255], [0, 0, 0], 64), [191, 191, 191]);
}

#[test]
fn glyph_coverage_blends_onto_the_canvas() {
    let mut canvas = solid(3, 3, [255, 255, 255]);
    // a 2 × 2 glyph: full, none / half, full
    canvas.blend_glyph(&vec![255, 0, 128, 255], 2, 2, 1, 1, [0, 0, 0]);
    assert_eq!(canvas.pixel(1, 1), Some([0, 0, 0]));
    assert_eq!(canvas.pixel(2, 1), Some([255, 255, 255]));
    assert_eq!(canvas.pixel(1, 2), Some([127, 127, 127]));
    assert_eq!(canvas.pixel(2, 2), Some([0, 0, 0]));
    assert_eq!(canvas.pixel(0, 0), Some([255, 255, 255]));
    // partly off the canvas
    canvas.blend_glyph(&vec![255, 255], 2, 1, -1, 0, [10, 20, 30]);
    assert_eq!(canvas.pixel(0, 0), Some([10, 20, 30]));
    assert_eq!(canvas.pixel(1, 0), Some([255, 255, 255]));
}

#[test]
fn outlined_rect_fills_inside_and_borders_edges() {
    let mut canvas = solid(5, 5, [255, 255, 255]);
    canvas.draw_outlined_rect(LayoutRect { x: 1, y: 1, width: 3, height: 3 }, [9, 9, 9], [1, 1, 1]);
    assert_eq!(canvas.pixel(2, 2), Some([9, 9, 9]));
    assert_eq!(canvas.pixel(1, 1), Some([1, 1, 1]));
    assert_eq!(canvas.pixel(3, 2), Some([1, 1, 1]));
    assert_eq!(canvas.pixel(4, 4), Some([255, 255, 255]));
    canvas.draw_outlined_rect(LayoutRect { x: -2, y: 0, width: 0, height: 5 }, [9, 9, 9], [1, 1, 1]);
    assert_eq!(canvas.pixel(0, 0), Some([255, 255, 255]));
}

#[test]
fn debug_diagram_colours_elements_by_kind() {
    let mut layout = Layout::new(10, 10);
    layout.add_element(LayoutElement::Image {
        rect: LayoutRect { x: 0, y: 0, width: 6, height: 6 },
        path: "a.png".to_string(),
    });
    layout.add_element(LayoutElement::RowLabel {
        rect: LayoutRect { x: 4, y: 4, width: 6, height: 6 },
        text: "row".to_string(),
    });
    let canvas = layout.render_debug();
    assert_eq!((canvas.width(), canvas.height()), (10, 10));
    assert_eq!(canvas.pixel(0, 0), Some([100, 100, 100]));
    assert_eq!(canvas.pixel(2, 2), Some([200, 200, 255]));
    assert_eq!(canvas.pixel(6, 6), Some([255, 200, 200]));
    assert_eq!(canvas.pixel(4, 5), Some([100, 100, 100]));
    assert_eq!(canvas.pixel(9, 0), Some([255, 255, 255]));
}

#[test]
fn debug_diagram_of_a_planned_layout_has_its_size() {
    let config = PlotConfig {
        images: vec!["test1.png".to_string(), "test2.png".to_string()],
        output: "output.png".to_string(),
        rows: 1,
        row_labels: vec!["Test Row".to_string()],
        column_labels: vec!["First".to_string(), "Second".to_string()],
        column_label_alignment: LabelAlignment::Center,
        row_label_alignment: LabelAlignment::Center,
        debug_mode: true,
        top_padding: 40,
        left_padding: 40,
    };
    let label = LabelSize { width: 60, height: 29 };
    let layout = plan_layout(&config, &vec![(100, 100), (100, 100)], &vec![label], &vec![label, label]).unwrap();
    let canvas = layout.render_debug();
    assert_eq!((canvas.width(), canvas.height()), (layout.total_width, layout.total_height));
    // the left band: outline at its edge, flat grey inside, clear of the row label
    assert_eq!(canvas.pixel(0, 100), Some([100, 100, 100]));
    assert_eq!(canvas.pixel(5, 100), Some([240, 240, 240]));
}
