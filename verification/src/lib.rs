//! Declarative extraction of data from HTML: a tree of CSS selectors goes in,
//! a tree of the matched text and attribute values, shaped like it, comes out.

pub mod cffi;
pub mod dom;
pub mod extract;
pub mod item;
pub mod matcher;
pub mod one_or_list;
pub mod schema;
pub mod text;

pub use crate::extract::{extract_document, extract_fragment};
pub use crate::item::{Extract, ExtractItem, ExtractText};
pub use crate::one_or_list::OneOrList;
pub use crate::schema::{CompileError, ExtractOpt, ExtractOptCompiled};
