//! Memory for an agent, kept in a soul server and mirrored locally.
//!
//! - [`shim`]: the embedding cache, in the soul server's key/value store, with a
//!   local store to fall back to;
//! - [`writer`]: memory files, handed to the soul server, with [`local`] files to
//!   fall back to;
//! - [`client`] and [`exchange`]: the requests to the server, and what is made of
//!   its responses;
//! - [`embedding`]: the text form of an embedding;
//! - [`base64_codec`]: base64, in which that text is written.
//!
//! Nothing here sends a request or touches a file. Each operation gives what to do
//! as a plain value, is told what came of it, and says what to do next.

pub mod base64_codec;
pub mod client;
pub mod embedding;
pub mod exchange;
pub mod local;
pub mod shim;
pub mod writer;
