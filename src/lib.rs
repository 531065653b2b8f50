//! A reusable flatbuffers writer for payloads of messages.
//!
//! `fb` holds the builder behind trusted calls and the record of calls that
//! describes its bytes; `writer` adds checked finishing and handles tagged
//! with a reset generation; `payload` is the schema whose entities encode
//! themselves; `server` is the caller loop's state; `laws` relates calls.
pub mod fb;
pub mod writer;
pub mod payload;
pub mod server;
pub mod laws;
