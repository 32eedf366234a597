//! Text extraction from HTML documents by CSS selector.
//!
//! The pieces are: plain string operations (`text`), the binding to the
//! HTML and selector engine (`markup`), validation of selector arguments
//! (`selectors`), the extraction itself (`extract`) and the command that
//! ties them together (`command`).

pub mod text;
pub mod markup;
pub mod extract;
pub mod selectors;
pub mod command;
