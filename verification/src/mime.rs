//! The streaming MIME subsystem used during the data phase: a buffer that
//! reassembles folded header lines, a header line parser, a push-driven
//! event parser that walks multipart boundaries, and an aggregator that
//! builds a simple message overview from the events.

pub mod event;
pub mod header;
pub mod header_buffer;
pub mod line_parser;
pub mod message;
pub mod message_handler;
pub mod message_parser;
pub mod parser;
