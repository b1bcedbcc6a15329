//! A deterministic pretty-printer for the Meson build language.
//!
//! The formatter re-renders arbitrary valid source text into a canonical
//! layout chosen by a [`Configuration`] record, without altering semantics:
//! tokens are separated by single spaces, arrays, dictionaries and argument
//! lists are laid out on one line or one item per line, comments are
//! re-attached, and `if`/`foreach` blocks are re-indented.
//!
//! The whole transformation is specified by the spec functions of the
//! [`model`] module; [`format_text`] is proved to return exactly the text
//! that the model describes, or the error that the model describes.

pub mod buffer;
pub mod configuration;
pub mod format_text;
pub mod grammar;
pub mod laws;
pub mod model;
pub mod parser;
pub mod render;
pub mod text;

pub use configuration::Configuration;
pub use format_text::format_text;
pub use parser::parse;
pub use parser::ParseError;
