//! Cassettes: recorded HTTP interactions and their file formats.

pub mod format;
pub mod index;
pub mod types;

pub use format::Format;
pub use index::IndexedCassette;
pub use types::{
    BodyEncoding, Cassette, ErrorKind, Header, Interaction, RecordedError, RecordedRequest, RecordedResponse,
    Timestamp,
};
