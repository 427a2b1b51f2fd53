use imx::jxl::{is_jxl_extension, is_jxl_file};

#[test]
fn test_is_jxl_file() {
    assert!(is_jxl_file("test.jxl"));
    assert!(is_jxl_file("test.JXL"));
    assert!(!is_jxl_file("test.png"));
    assert!(!is_jxl_file("test"));
}

#[test]
fn jxl_name_without_dot_is_not_an_extension() {
    // a bare "jxl" is a file name, not an extension
    assert!(!is_jxl_file("jxl"));
    assert!(!is_jxl_file(".jxl"));
    assert!(is_jxl_file("dir/image.JxL"));
    assert!(is_jxl_extension("JXL"));
    assert!(!is_jxl_extension("jxl2"));
}
