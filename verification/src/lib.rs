//! Rendering of a help overlay: a reference document is cut down to its user
//! guide, its shortcuts table is aligned, its markup is stripped, and the
//! wrapped lines get their bold spans back.

pub mod error;
pub mod help;
pub mod markup;
pub mod style;
pub mod table;
pub mod text;
pub mod wrap;

pub use crate::error::HelpError;
pub use crate::help::get_formatted_help_text;
pub use crate::markup::strip_markup_and_extract_bold_positions;
pub use crate::style::stylize_wrapped_lines;
pub use crate::table::{get_justified_keyboard_shortcuts_table, justify_table};
