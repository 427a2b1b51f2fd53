use imx::labels::{label_size, line_offset, split_lines, LabelSize};
use imx::plot_file::{default_alignment, default_left_padding, default_top_padding, string_to_alignment};
use imx::LabelAlignment;

#[test]
fn split_lines_on_newlines() {
    assert_eq!(split_lines("Line 1\nLine 2\nLine 3"), vec!["Line 1", "Line 2", "Line 3"]);
    assert_eq!(split_lines("First\nLine"), vec!["First", "Line"]);
    assert_eq!(split_lines("single"), vec!["single"]);
    assert_eq!(split_lines("a\n"), vec!["a", ""]);
    assert_eq!(split_lines("\n\n"), vec!["", "", ""]);
}

#[test]
fn empty_label_has_no_lines_and_no_size() {
    assert!(split_lines("").is_empty());
    assert_eq!(label_size(&vec![]), LabelSize { width: 0, height: 0 });
}

#[test]
fn label_size_is_widest_line_by_line_count() {
    // 1.2 × 24 px per line, rounded: 29, 58, 86
    assert_eq!(label_size(&vec![40]), LabelSize { width: 40, height: 29 });
    assert_eq!(label_size(&vec![40, 70]), LabelSize { width: 70, height: 58 });
    assert_eq!(label_size(&vec![40, 70, 10]), LabelSize { width: 70, height: 86 });
}

#[test]
fn multiline_label_is_taller_than_its_first_line() {
    let single = label_size(&vec![55]);
    let multi = label_size(&vec![55, 55, 55]);
    assert!(multi.height > single.height);
    assert!(multi.width >= single.width);
}

#[test]
fn line_offsets_step_by_line_height() {
    assert_eq!(line_offset(0), 0);
    assert_eq!(line_offset(1), 29);
    assert_eq!(line_offset(2), 58);
    assert_eq!(line_offset(5), 144);
}

#[test]
fn plot_file_defaults_and_alignment_names() {
    assert_eq!(default_alignment(), "center");
    assert_eq!(default_top_padding(), 60);
    assert_eq!(default_left_padding(), 60);
    assert_eq!(string_to_alignment("start"), LabelAlignment::Start);
    assert_eq!(string_to_alignment("START"), LabelAlignment::Start);
    assert_eq!(string_to_alignment("End"), LabelAlignment::End);
    assert_eq!(string_to_alignment("center"), LabelAlignment::Center);
    assert_eq!(string_to_alignment("sideways"), LabelAlignment::Center);
    assert_eq!(LabelAlignment::default(), LabelAlignment::Center);
}
