//! An IMAP client library: the decisions the client makes about the server's
//! capabilities, the protocol stream, fetch results and their sorting, and the
//! fallbacks used when the server lacks an extension.
pub mod capability;
pub mod client;
pub mod fetch;
pub mod sort;
pub mod seqs;
pub mod literal;
pub mod stream;
pub mod resolver;
pub mod tasks;
pub mod idle;
pub mod append;
pub mod listing;
