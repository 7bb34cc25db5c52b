//! Mail-merge address rendering: decodes JSON mailing addresses, assembles a
//! render job, and produces the HTML document from which envelope PDFs are
//! printed at a chosen page size.

pub mod address;
pub mod json;
pub mod job;
pub mod laws;
pub mod num;
pub mod parser;
pub mod render;
pub mod text;
