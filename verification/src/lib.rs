//! Verified core of a peer-to-peer file and clipboard-text transfer tool.
//!
//! The wire protocol frames file and sender names as fixed-width padded
//! fields, gates every inbound transfer on an explicit consent decision,
//! and resolves collision-free destination names for received files.

pub mod codec;
pub mod consent;
pub mod decimal;
pub mod namer;
pub mod protocol;
pub mod receiver;
pub mod sender;
