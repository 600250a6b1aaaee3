//! Client core for a slug-to-target redirect table hosted on Airtable.
//!
//! The library holds everything that can be stated and checked: the record
//! model and its JSON envelope codec, configuration resolution, the error
//! taxonomy, and the request-shaping and response-interpretation logic of
//! the record client. The network exchange itself is left to the binary
//! around the library, which hands response bodies in as plain strings.

pub mod client;
pub mod codec;
pub mod config;
pub mod decode;
pub mod error;
pub mod laws;

pub use client::AirtableClient;
pub use codec::AirtableRequest;
pub use codec::AirtableResponse;
pub use codec::Record;
pub use codec::RecordField;
pub use config::AirtableConfig;
pub use error::ClientError;
