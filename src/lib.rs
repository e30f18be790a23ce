//! Decoder for recorded match logs of a real-time-strategy engine: header
//! fields, the command stream, and the match facts derived from them.
pub mod models;
pub mod text;
pub mod stream;
pub mod header;
pub mod colors;
pub mod outcome;
pub mod parser;
pub mod laws;
pub mod content;
pub mod archive;
pub mod bot;
pub mod summary;
