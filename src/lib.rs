//! Command-driven automation for voice rooms: parsing of operator commands,
//! resolution of names against a directory snapshot, planning of the remote
//! actions, and the decisions of the control-channel listener.
pub mod command;
pub mod directory;
pub mod executor;
pub mod listener;
