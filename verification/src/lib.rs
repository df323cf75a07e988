//! Core of a small static-blog builder.
//!
//! Content files are named `YYYY-MM-DD-title.<ext>` and live one directory
//! below a content root; each begins with a YAML frontmatter block. This
//! crate parses and validates those files into post records, converts their
//! markdown bodies to HTML, and assembles the sorted content index that a
//! serving layer displays. All filesystem and network work stays outside:
//! callers hand in paths and file contents as plain strings.

pub mod date;
pub mod error;
pub mod filename;
pub mod frontmatter;
pub mod input;
pub mod mk;
pub mod post;
pub mod render;
pub mod state;
pub mod text;
