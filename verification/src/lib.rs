//! Rendering of markdown for a console: ANSI styles, box-drawn tables,
//! indented lists and quoted blocks, with syntax highlighting of code.
pub mod console;
pub mod highlight;
pub mod laws;
pub mod links;
pub mod mdast;
pub mod purpose;
pub mod render;
pub mod spec;
pub mod table;
pub mod text;
pub mod tree;

pub use console::{render_document, render_markdown_for_console};
pub use tree::MdNode;
