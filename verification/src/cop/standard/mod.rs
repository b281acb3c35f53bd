//! Cops of the Standard style guide.
pub mod block_single_line_braces;
