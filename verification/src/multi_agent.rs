//! Messages between agents.

use vstd::prelude::*;

verus! {

/// How the text of an agent's message is held.
#[derive(Clone, Copy, PartialEq, Eq, Structural, Debug)]
pub enum AgentMessageContentMode {
    /// The server encrypts messages: the text is cipher text.
    Encrypted,
    /// The wire has no encryption of messages: the text is what the model wrote.
    Plaintext,
}

/// The text of a message, in the form that its reader gets it in.
#[derive(Debug)]
pub enum CommunicationContent {
    Plaintext(String),
    Encrypted(String),
}

/// A message from one agent to others.
#[derive(Debug)]
pub struct InterAgentCommunication {
    pub author: String,
    pub recipient: String,
    pub other_recipients: Vec<String>,
    pub content: CommunicationContent,
    /// Whether the recipient takes a turn on it.
    pub trigger_turn: bool,
}

/// The message that a tool's text is sent as: to the recipient alone, who takes
/// a turn on it, and in the clear exactly where the wire does not encrypt.
pub fn communication_from_tool_message(
    author: String,
    recipient: String,
    message: String,
    content_mode: AgentMessageContentMode,
) -> (result: InterAgentCommunication)
    ensures
        result.author@ == author@,
        result.recipient@ == recipient@,
        result.other_recipients@.len() == 0,
        result.trigger_turn,
        match content_mode {
            AgentMessageContentMode::Plaintext => result.content matches
                CommunicationContent::Plaintext(text) && text@ == message@,
            AgentMessageContentMode::Encrypted => result.content matches
                CommunicationContent::Encrypted(text) && text@ == message@,
        },
{
    let content = match content_mode {
        AgentMessageContentMode::Plaintext => CommunicationContent::Plaintext(message),
        AgentMessageContentMode::Encrypted => CommunicationContent::Encrypted(message),
    };
    InterAgentCommunication {
        author,
        recipient,
        other_recipients: Vec::new(),
        content,
        trigger_turn: true,
    }
}

} // verus!
