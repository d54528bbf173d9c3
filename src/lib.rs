//! Configuration model, loader and entry formatting for a snippet picker.
//!
//! A configuration document names a set of snippets (`mappings`) and how the
//! picker shows them (`style`). The library turns the document into a
//! validated [`Config`], formats one styled line per snippet, and maps the
//! picker's answer back to the snippet to copy.

pub mod config;
pub mod document;
pub mod entries;
pub mod error;
pub mod path;
pub mod select;
pub mod style;
pub mod table;
pub mod yaml;

pub use error::ConfigError;
pub use style::{font_size_from_lower, resolve_style, FontSize, Style};
pub use document::{entry_of, string_pairs_of, Node};
pub use yaml::{nesting_fits, parse_document, MAX_NESTING};
pub use config::{load_config, load_document, Config};
pub use path::smart;
pub use entries::{entry_text, format_entries, key_column_width};
pub use select::{selection_for, Selection};
