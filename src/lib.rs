//! A single music asset's record and the four operations that move it through
//! its lifecycle: creation, minting, copyright registration and transfer.
//!
//! `record` holds the record and its byte encoding, `instruction` the operation
//! payloads, and `program` the dispatcher, the handlers and the rules that
//! govern them.

pub mod error;
pub mod instruction;
pub mod key;
pub mod program;
pub mod record;
pub mod wire;
