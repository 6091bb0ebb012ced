//! Messages exchanged with an interface adapter that follows the linear
//! receive, run, send loop (stdio, chat services).
use vstd::prelude::*;

verus! {

pub struct ChatMessage {
    pub session_id: String,
    pub content: String,
}

pub struct AgentResponse {
    pub session_id: String,
    pub content: String,
}

} // verus!
