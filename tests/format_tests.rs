use imx::fonts::{choose_glyph, FontChoice};
use imx::ImageFormatOptions;

#[test]
fn format_presets() {
    let jpeg = ImageFormatOptions::jpeg();
    assert_eq!((jpeg.quality(), jpeg.lossless()), (85, false));
    let png = ImageFormatOptions::png();
    assert_eq!((png.quality(), png.lossless()), (100, true));
    let webp = ImageFormatOptions::webp();
    assert_eq!((webp.quality(), webp.lossless()), (80, false));
    let default = ImageFormatOptions::default();
    assert_eq!((default.quality(), default.lossless()), (90, false));
    assert_eq!(default.option("anything"), None);
}

#[test]
fn builders_set_quality_lossless_and_options() {
    let options = ImageFormatOptions::webp().with_quality(85).with_lossless(true);
    assert_eq!(options.quality(), 85);
    assert!(options.lossless());
    assert_eq!(ImageFormatOptions::jpeg().with_quality(150).quality(), 100);
    let options = ImageFormatOptions::png()
        .with_option("compression", "fast")
        .with_option("filter", "sub")
        .with_option("compression", "best");
    assert_eq!(options.option("compression"), Some("best".to_string()));
    assert_eq!(options.option("filter"), Some("sub".to_string()));
    assert_eq!(options.option("missing"), None);
}

#[test]
fn primary_font_wins_when_it_has_the_glyph() {
    assert_eq!(choose_glyph(36, 0), (FontChoice::Primary, 36));
    assert_eq!(choose_glyph(36, 1200), (FontChoice::Primary, 36));
    assert_eq!(choose_glyph(0, 1200), (FontChoice::Fallback, 1200));
    assert_eq!(choose_glyph(0, 0), (FontChoice::Fallback, 0));
}

#[test]
fn cloned_options_keep_every_setting() {
    let options = ImageFormatOptions::jpeg().with_quality(70).with_option("progressive", "yes");
    let copy = options.clone();
    assert_eq!(copy.quality(), 70);
    assert!(!copy.lossless());
    assert_eq!(copy.option("progressive"), Some("yes".to_string()));
}
