//! Labelled image grids ("contact sheets"): layout planning, label sizing,
//! font selection and the pixel work behind them, with their contracts
//! proved by Verus.
pub mod canvas;
pub mod debug_view;
pub mod fonts;
pub mod formats;
pub mod image_processing;
pub mod jxl;
pub mod labels;
pub mod layout;
pub mod numeric;
pub mod plot_file;
pub mod xyplot;

pub use canvas::Canvas;
pub use fonts::{FontChoice, FontPair};
pub use formats::ImageFormatOptions;
pub use image_processing::{detect_image_format, DetectedImageFormat};
pub use jxl::is_jxl_file;
pub use labels::{label_size, split_lines, LabelSize};
pub use layout::{Layout, LayoutElement, LayoutRect};
pub use numeric::{i32_to_u32, u32_to_i32};
pub use xyplot::{plan_layout, LabelAlignment, PlotConfig, PlotError};
