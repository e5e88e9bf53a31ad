//! Decision logic of a node-resident log shipping agent: which files to
//! read, from which offset, how to cut what was read into line-aligned
//! chunks, and what to send where. All file, network and clock access is
//! left to the caller, who hands in plain values and carries out the
//! actions handed back.

pub mod auth;
pub mod client;
pub mod directory_listener;
pub mod env;
pub mod error;
pub mod event;
pub mod form;
pub mod path;
pub mod positions;
pub mod process_file_events;
pub mod read_and_send;
pub mod reader;
