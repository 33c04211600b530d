//! Verified core of the lucie UI toolkit: text layout bookkeeping, font
//! configuration, cursor/selection geometry-free logic, small numeric helpers,
//! and the string handling behind logging targets and file URLs.

pub mod atomic_counter;
pub mod common;
pub mod display;
pub mod file_url;
pub mod font_config;
pub mod font_family;
pub mod font_names;
pub mod glyph;
pub mod hinting;
pub mod http;
pub mod layout_id;
pub mod log_location;
pub mod select;
pub mod serial;
pub mod styled_runs;
pub mod text_element;
pub mod text_util;
