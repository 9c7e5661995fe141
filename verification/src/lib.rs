//! An embeddable SMTP receiver: a line parser and protocol state machine,
//! a streaming MIME event parser, and the policy checks (blocklists,
//! forward-confirmed reverse DNS) that a mail receiver runs at HELO time.
//!
//! The embedder supplies the I/O: it frames lines from the client, hands
//! each line to a [`session::Session`], and writes the returned response
//! back to the client.

pub mod auth;
pub mod cmd;
pub mod fsm;
pub mod handler;
pub mod ip;
pub mod mime;
pub mod mxdns;
pub mod parser;
pub mod response;
pub mod session;
pub mod ssl;

use vstd::prelude::*;

verus! {

} // verus!
