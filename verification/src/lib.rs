pub mod ansi_codes;
pub mod color;
pub mod control;
pub mod draw_mode;
pub mod effect;
pub mod event;
pub mod fill;
pub mod glyphs;
pub mod grid;
pub mod input;
pub mod log;
pub mod palette;
pub mod rgb_image;
pub mod size2d;
pub mod style;
pub mod term_frame;
pub mod termio;
pub mod text;
pub mod unicode;
