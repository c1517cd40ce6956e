//! Client-side protocol logic of an HDFS client: the paged directory listing
//! conversation with the NameNode, and the state machine that reads a file (or a
//! byte range of it) block by block from DataNodes, falling back to further
//! replicas when a DataNode fails.
//!
//! The network, the wire encoding and the stream plumbing live outside this crate:
//! the types here are the decoded messages, and each state machine is a function
//! from its state and an incoming event to its next state and the action to take.

pub mod buffer;
pub mod messages;
pub mod error;
pub mod datanode;
pub mod listing;
pub mod read_fsm;
pub mod get;
pub mod put;
