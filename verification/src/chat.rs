//! The messages of a line-based chat relay: their construction, their wire
//! encoding, their display rendering, and the classification of what a user
//! typed. The sockets and the screen live elsewhere; whoever runs them hands
//! the text in and carries the results out.

use vstd::prelude::*;

use crate::encode::{push_quoted, quoted};
use crate::strings::str_eq;

verus! {

/// Whether a message came from a user or from the system.
#[derive(Debug, PartialEq, Eq, Structural)]
pub enum MessageType {
    UserMessage,
    SystemNotification,
}

/// One chat message, stamped with its sender and time.
#[derive(Debug)]
pub struct ChatMessage {
    pub username: String,
    pub content: String,
    pub timestamp: String,
    pub message_type: MessageType,
}

impl ChatMessage {
    /// The system notice that a user joined.
    pub fn joined(username: &str, timestamp: &str) -> (r: ChatMessage)
        ensures
            r.username@ == username@,
            r.content@ == "Joined the Chat"@,
            r.timestamp@ == timestamp@,
            r.message_type is SystemNotification,
    {
        let mut content = String::new();
        content.append("Joined the Chat");
        ChatMessage {
            username: username.to_owned(),
            content,
            timestamp: timestamp.to_owned(),
            message_type: MessageType::SystemNotification,
        }
    }

    /// The system notice that a user left.
    pub fn leaving(username: &str, timestamp: &str) -> (r: ChatMessage)
        ensures
            r.username@ == username@,
            r.content@ == "Leaving the Chat"@,
            r.timestamp@ == timestamp@,
            r.message_type is SystemNotification,
    {
        let mut content = String::new();
        content.append("Leaving the Chat");
        ChatMessage {
            username: username.to_owned(),
            content,
            timestamp: timestamp.to_owned(),
            message_type: MessageType::SystemNotification,
        }
    }

    /// A message a user sent.
    pub fn from_user(username: &str, content: &str, timestamp: &str) -> (r: ChatMessage)
        ensures
            r.username@ == username@,
            r.content@ == content@,
            r.timestamp@ == timestamp@,
            r.message_type is UserMessage,
    {
        ChatMessage {
            username: username.to_owned(),
            content: content.to_owned(),
            timestamp: timestamp.to_owned(),
            message_type: MessageType::UserMessage,
        }
    }
}

/// The wire text of one chat message: every field named, text fields quoted
/// and escaped, the kind carried as its name.
pub open spec fn spec_encode_chat(m: ChatMessage) -> Seq<char> {
    "{\"username\":"@ + quoted(m.username@) + ",\"content\":"@ + quoted(m.content@)
        + ",\"timestamp\":"@ + quoted(m.timestamp@) + ",\"message_type\":"@ + (
    if m.message_type is UserMessage {
        "\"UserMessage\""@
    } else {
        "\"SystemNotification\""@
    }) + "}"@
}

/// Renders one chat message as its wire text.
pub fn encode_chat_message(m: &ChatMessage) -> (r: String)
    ensures
        r@ == spec_encode_chat(*m),
{
    let mut out = String::new();
    out.append("{\"username\":");
    push_quoted(&mut out, m.username.as_str());
    out.append(",\"content\":");
    push_quoted(&mut out, m.content.as_str());
    out.append(",\"timestamp\":");
    push_quoted(&mut out, m.timestamp.as_str());
    out.append(",\"message_type\":");
    match m.message_type {
        MessageType::UserMessage => out.append("\"UserMessage\""),
        MessageType::SystemNotification => out.append("\"SystemNotification\""),
    }
    out.append("}");
    proof {
        assert(out@ =~= spec_encode_chat(*m));
    }
    out
}

/// How one received message reads on screen: a boxed two-line banner for a
/// system notice, a bracketed line for a user message.
pub open spec fn spec_format_message(m: ChatMessage) -> Seq<char> {
    if m.message_type is SystemNotification {
        "┌─["@ + m.timestamp@ + "]\n└─ "@ + m.username@ + " ▶ "@ + m.content@ + "\n"@
    } else {
        "\n["@ + m.username@ + " "@ + m.content@ + "]\n"@
    }
}

/// Renders one received message for display.
pub fn format_message(m: &ChatMessage) -> (r: String)
    ensures
        r@ == spec_format_message(*m),
{
    let mut out = String::new();
    match m.message_type {
        MessageType::SystemNotification => {
            out.append("┌─[");
            out.append(m.timestamp.as_str());
            out.append("]\n└─ ");
            out.append(m.username.as_str());
            out.append(" ▶ ");
            out.append(m.content.as_str());
            out.append("\n");
        },
        MessageType::UserMessage => {
            out.append("\n[");
            out.append(m.username.as_str());
            out.append(" ");
            out.append(m.content.as_str());
            out.append("]\n");
        },
    }
    proof {
        assert(out@ =~= spec_format_message(*m));
    }
    out
}

/// What typed input asks for.
#[derive(Debug, PartialEq, Eq, Structural)]
pub enum ChatCommand {
    Ignore,
    ShowHelp,
    ClearScreen,
    Quit,
    Send,
}

/// Classifies one line of typed input: empty input is ignored, the three
/// slash commands are recognised exactly, and anything else is sent as a
/// message.
pub fn classify_command(msg: &str) -> (r: ChatCommand)
    ensures
        msg@.len() == 0 ==> r == ChatCommand::Ignore,
        msg@ == "/help"@ ==> r == ChatCommand::ShowHelp,
        msg@ == "/clear"@ ==> r == ChatCommand::ClearScreen,
        msg@ == "/quit"@ ==> r == ChatCommand::Quit,
        (msg@.len() > 0 && msg@ != "/help"@ && msg@ != "/clear"@ && msg@ != "/quit"@) ==> r
            == ChatCommand::Send,
{
    proof {
        reveal_strlit("/help");
        reveal_strlit("/clear");
        reveal_strlit("/quit");
        assert("/help"@ != "/quit"@) by {
            assert("/help"@[1] == 'h' && "/quit"@[1] == 'q');
        }
        assert("/help"@ != "/clear"@ && "/clear"@ != "/quit"@) by {
            assert("/help"@.len() == 5 && "/clear"@.len() == 6 && "/quit"@.len() == 5);
        }
    }
    if msg.unicode_len() == 0 {
        ChatCommand::Ignore
    } else if str_eq(msg, "/help") {
        ChatCommand::ShowHelp
    } else if str_eq(msg, "/clear") {
        ChatCommand::ClearScreen
    } else if str_eq(msg, "/quit") {
        ChatCommand::Quit
    } else {
        ChatCommand::Send
    }
}

/// The help text the help command shows.
pub fn help_text() -> (r: &'static str)
    ensures
        r@ == "\n=== Commands ===\n/help - Show this help\n/clear - Clear messages\n/quit - Exit chat\n\n"@,
{
    "\n=== Commands ===\n/help - Show this help\n/clear - Clear messages\n/quit - Exit chat\n\n"
}

} // verus!
