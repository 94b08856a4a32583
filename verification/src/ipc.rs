//! Inter-process communication: messages between processes.

use vstd::prelude::*;

verus! {

/// Message sent via IPC.
#[derive(Debug, Clone)]
pub struct Message {
    pub sender: u64,
    pub recipient: u64,
    pub payload: Vec<u8>,
}

} // verus!
