//! The message shapes exchanged with the host application over IPC, and the
//! handler that a transport drives.

use vstd::prelude::*;

verus! {

/// One inbound chat message.
#[derive(Clone, Debug)]
pub struct Message {
    pub id: String,
    pub chat_id: String,
    pub content: String,
    pub message_type: String,
}

/// One outbound response to a message.
#[derive(Clone, Debug)]
pub struct Response {
    pub message_id: String,
    pub content: String,
    pub status: String,
}

/// What a transport needs of a message handler: one response — or a
/// description of the failure — per inbound message.
pub trait IPCHandler {
    /// Handles one inbound message.
    fn handle_message(&self, message: Message) -> Result<Response, String>;
}

} // verus!
