//! A verified protocol engine for a cellular modem driven by AT commands over a serial link.
//!
//! - `text`: substring search, decimal fields and UTF-8 checks on bytes.
//! - `storage` and `buffer`: fixed-capacity text that evicts its oldest bytes behind a marker.
//! - `matcher`: one command and the classification of its reply by the first token to complete.
//! - `workflow`: the provisioning-and-transfer steps, with the activation recovery branch.
//! - `store`: the status label, byte counters and rolling log published to the front end.
//! - `dispatcher`: the depth-one mailbox that keeps one request at a time on the modem.
//!
//! Nothing here performs I/O: the caller writes what an exchange asks for, reads the serial link
//! and hands each read back.

pub mod text;
pub mod storage;
pub mod buffer;
pub mod matcher;
pub mod store;
pub mod workflow;
pub mod dispatcher;
