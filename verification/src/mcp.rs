//! The parameters of the `send_message` tool that the MCP server offers.

use vstd::prelude::*;

verus! {

/// Parameters of `send_message`.
#[derive(Debug)]
pub struct SendMessageParams {
    /// Destination topic or queue name.
    pub topic: String,
    /// Message body, a plain string: callers that want structured data
    /// encode it themselves.
    pub body: String,
}

impl View for SendMessageParams {
    type V = (Seq<char>, Seq<char>);

    open spec fn view(&self) -> (Seq<char>, Seq<char>) {
        (self.topic@, self.body@)
    }
}

} // verus!
