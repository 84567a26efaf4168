//! Streaming reader for bulk patent-grant feeds: many XML-like documents
//! concatenated into one byte stream, one structured record per document.

pub mod biblio;
pub mod container;
pub mod data;
pub mod descriptions;
pub mod deserialize;
pub mod error;
pub mod event;
pub mod fetch;
pub mod fields;
pub mod framing;
pub mod parse;
pub mod parties;
pub mod reader;
pub mod sections;
pub mod serialize;
pub mod strings;
pub mod text;
pub mod util;

pub use crate::container::Source;
pub use crate::deserialize::PatentGrants;
pub use crate::error::Error;
pub use crate::serialize::PatentOutput;
