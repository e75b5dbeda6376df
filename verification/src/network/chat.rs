//! What a chat message from a player does.
use vstd::prelude::*;

use vstd::string::StrSliceExecFns;

use crate::translation::{fill_placeholders, TranslationManager};

verus! {

/// What the server does with a chat message.
#[derive(Debug)]
pub enum ChatAction {
    /// Run the command: the message without its leading `/`.
    Command(String),
    /// Send this text to every player.
    Broadcast(String),
}

/// The text that a chat message from `name` is sent as: the `chat.type.text`
/// template filled with the name and the message, or the key itself when
/// there is no such template.
pub open spec fn chat_text(
    templates: Map<Seq<char>, Seq<char>>,
    name: Seq<char>,
    message: Seq<char>,
) -> Seq<char> {
    if templates.contains_key("chat.type.text"@) {
        fill_placeholders(templates["chat.type.text"@], seq![name, message])
    } else {
        "chat.type.text"@
    }
}

/// A message that starts with `/` is a command; any other message is
/// sent to everyone, formatted with the sender's name.
pub fn chat_action(translations: &TranslationManager, name: String, message: String) -> (r: ChatAction)
    ensures
        message@.len() > 0 && message@[0] == '/' ==> (r matches ChatAction::Command(c) && c@
            == message@.skip(1)),
        !(message@.len() > 0 && message@[0] == '/') ==> (r matches ChatAction::Broadcast(text)
            && text@ == chat_text(translations.templates(), name@, message@)),
{
    let len = message.as_str().unicode_len();
    if len > 0 && message.as_str().get_char(0) == '/' {
        let command = message.as_str().substring_char(1, len).to_owned();
        assert(command@ =~= message@.skip(1));
        ChatAction::Command(command)
    } else {
        let ghost name_view = name@;
        let ghost message_view = message@;
        let entries = vec![name, message];
        assert(entries@.map_values(|e: String| e@) =~= seq![name_view, message_view]);
        ChatAction::Broadcast(translations.translate("chat.type.text", Some(entries)))
    }
}

} // verus!
