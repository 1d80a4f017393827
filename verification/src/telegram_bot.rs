//! What the bot does with a message: which command it holds and what the
//! command asks for.

use vstd::prelude::*;
use crate::telegram_client::{Message, PhotoSize};
use crate::text::{after_first, before_first, same_text, split_at_first};

verus! {

/// The commands of the bot, each with the text that follows it.
#[derive(Debug)]
pub enum FreopenBotCommand {
    Sirify(String),
    Ayrify(String),
    Foxify(String),
    Ukulelify(String),
    Subscribe(String),
}

/// The word that names the command: what stands before the first space of
/// `text`, up to an `@`.
pub open spec fn command_word(text: Seq<char>) -> Seq<char> {
    before_first(before_first(text, ' '), '@')
}

/// The bot that `text` addresses by name, where it names one: what stands
/// between the first `@` of the first word and its next `@` or its end.
pub open spec fn addressed_bot(text: Seq<char>) -> Option<Seq<char>> {
    match after_first(before_first(text, ' '), '@') {
        Some(rest) => Some(before_first(rest, '@')),
        None => None,
    }
}

/// What follows the first space of `text`.
pub open spec fn arguments(text: Seq<char>) -> Seq<char> {
    match after_first(text, ' ') {
        Some(rest) => rest,
        None => Seq::empty(),
    }
}

/// Whether `text` is meant for the bot `bot_name`: it names no bot, or
/// this one.
pub open spec fn addressed_to(text: Seq<char>, bot_name: Seq<char>) -> bool {
    match addressed_bot(text) {
        Some(name) => name == bot_name,
        None => true,
    }
}

/// Whether `word` names a command of the bot.
pub open spec fn is_known(word: Seq<char>) -> bool {
    word == "/sirify"@ || word == "/ayrify"@ || word == "/foxify"@ || word == "/ukulelify"@ || word
        == "/subscribe"@
}

/// Whether `command` is the command that `text` holds.
pub open spec fn is_parsed(command: FreopenBotCommand, text: Seq<char>) -> bool {
    match command {
        FreopenBotCommand::Sirify(p) => command_word(text) == "/sirify"@ && p@ == arguments(text),
        FreopenBotCommand::Ayrify(p) => command_word(text) == "/ayrify"@ && p@ == arguments(text),
        FreopenBotCommand::Foxify(p) => command_word(text) == "/foxify"@ && p@ == arguments(text),
        FreopenBotCommand::Ukulelify(p) => command_word(text) == "/ukulelify"@ && p@ == arguments(
            text,
        ),
        FreopenBotCommand::Subscribe(p) => command_word(text) == "/subscribe"@ && p@ == arguments(
            text,
        ),
    }
}

impl FreopenBotCommand {
    /// Reads `text` as a command for the bot `bot_name`. The first word
    /// names the command, after a slash and in lower case; it may name the
    /// bot after an `@`. What follows the first space goes with the command
    /// as it is.
    pub fn parse(text: &str, bot_name: &str) -> (r: Option<FreopenBotCommand>)
        ensures
            r is Some <==> addressed_to(text@, bot_name@) && is_known(command_word(text@)),
            r matches Some(command) ==> is_parsed(command, text@),
    {
        let (head, rest) = split_at_first(text, ' ');
        let (word, bot) = split_at_first(head.as_str(), '@');
        match bot {
            Some(named) => {
                let (name, _) = split_at_first(named.as_str(), '@');
                if !same_text(name.as_str(), bot_name) {
                    return None;
                }
            },
            None => {},
        }
        let args = match rest {
            Some(rest) => rest,
            None => String::new(),
        };
        if same_text(word.as_str(), "/sirify") {
            Some(FreopenBotCommand::Sirify(args))
        } else if same_text(word.as_str(), "/ayrify") {
            Some(FreopenBotCommand::Ayrify(args))
        } else if same_text(word.as_str(), "/foxify") {
            Some(FreopenBotCommand::Foxify(args))
        } else if same_text(word.as_str(), "/ukulelify") {
            Some(FreopenBotCommand::Ukulelify(args))
        } else if same_text(word.as_str(), "/subscribe") {
            Some(FreopenBotCommand::Subscribe(args))
        } else {
            None
        }
    }
}

/// The photo that a command works on: that of the message itself, else
/// that of the message it replies to.
pub open spec fn photo_source(message: Message) -> Option<Vec<PhotoSize>> {
    match message.photo {
        Some(photo) => Some(photo),
        None => match message.reply_to_message {
            Some(reply) => reply.photo,
            None => None,
        },
    }
}

/// The photo that a command works on: that of the message itself, else
/// that of the message it replies to.
pub fn resolve_photo_source(message: &Message) -> (r: Option<&Vec<PhotoSize>>)
    ensures
        r is Some == photo_source(*message) is Some,
        r matches Some(photo) ==> Some(*photo) == photo_source(*message),
{
    match &message.photo {
        Some(photo) => Some(photo),
        None => match &message.reply_to_message {
            Some(reply) => match &reply.photo {
                Some(photo) => Some(photo),
                None => None,
            },
            None => None,
        },
    }
}

/// What is done about a message.
#[derive(Debug)]
pub enum MessagePlan {
    /// The message asks for nothing.
    Nothing,
    /// The subscription command, with the text that follows it.
    Subscribe(String),
    /// A photo is announced and none can be had: the photo has no sizes.
    EmptyPhoto,
    /// A photo is announced, the file `file_id` is fetched, the picture
    /// `filename` is laid over it, mirrored or not, and the result is sent
    /// in reply.
    Enhance { file_id: String, filename: &'static str, mirror: bool },
}

/// The text of `message`, which is empty where it has none.
pub open spec fn text_of(message: Message) -> Seq<char> {
    match message.text {
        Some(text) => text@,
        None => Seq::empty(),
    }
}

/// Whether `plan` is what `message` asks of the bot `bot_name`.
///
/// A message without a command of the bot asks for nothing. The
/// subscription command is handed on. Any other command works on the photo
/// of the message or of the message that it replies to, and asks for
/// nothing where there is none; it takes the last size of the photo, and
/// the picture that is named as the command is, and mirrors where the
/// command is followed by `mirror` alone.
pub open spec fn is_plan(plan: MessagePlan, message: Message, bot_name: Seq<char>) -> bool {
    let text = text_of(message);
    if !(addressed_to(text, bot_name) && is_known(command_word(text))) {
        plan is Nothing
    } else if command_word(text) == "/subscribe"@ {
        plan matches MessagePlan::Subscribe(params) && params@ == arguments(text)
    } else {
        match photo_source(message) {
            None => plan is Nothing,
            Some(photo) => if photo.len() == 0 {
                plan is EmptyPhoto
            } else {
                &&& plan matches MessagePlan::Enhance { file_id, filename, mirror }
                &&& file_id@ == photo[photo.len() - 1].file_id@
                &&& "/"@ + filename@ == command_word(text)
                &&& mirror == (arguments(text) == "mirror"@)
            },
        }
    }
}

/// What `message` asks of the bot `bot_name`.
pub fn process_message(message: &Message, bot_name: &str) -> (r: MessagePlan)
    ensures
        is_plan(r, *message, bot_name@),
{
    let command = match &message.text {
        Some(text) => FreopenBotCommand::parse(text.as_str(), bot_name),
        None => FreopenBotCommand::parse("", bot_name),
    };
    proof {
        reveal_strlit("");
        assert(""@ =~= Seq::<char>::empty());
        reveal_strlit("/");
        reveal_strlit("sirify");
        reveal_strlit("ayrify");
        reveal_strlit("foxify");
        reveal_strlit("ukulelify");
        reveal_strlit("/sirify");
        reveal_strlit("/ayrify");
        reveal_strlit("/foxify");
        reveal_strlit("/ukulelify");
        reveal_strlit("/subscribe");
        assert("/"@ + "sirify"@ =~= "/sirify"@);
        assert("/"@ + "ayrify"@ =~= "/ayrify"@);
        assert("/"@ + "foxify"@ =~= "/foxify"@);
        assert("/"@ + "ukulelify"@ =~= "/ukulelify"@);
        assert("/sirify"@.len() != "/subscribe"@.len());
        assert("/ayrify"@.len() != "/subscribe"@.len());
        assert("/foxify"@.len() != "/subscribe"@.len());
        assert("/ukulelify"@[1] != "/subscribe"@[1]);
    }
    let (filename, param) = match command {
        None => {
            return MessagePlan::Nothing;
        },
        Some(FreopenBotCommand::Subscribe(params)) => {
            return MessagePlan::Subscribe(params);
        },
        Some(FreopenBotCommand::Sirify(param)) => ("sirify", param),
        Some(FreopenBotCommand::Ayrify(param)) => ("ayrify", param),
        Some(FreopenBotCommand::Foxify(param)) => ("foxify", param),
        Some(FreopenBotCommand::Ukulelify(param)) => ("ukulelify", param),
    };
    match resolve_photo_source(message) {
        None => MessagePlan::Nothing,
        Some(photo) => {
            if photo.len() == 0 {
                return MessagePlan::EmptyPhoto;
            }
            let file_id = photo[photo.len() - 1].file_id.clone();
            let mirror = same_text(param.as_str(), "mirror");
            MessagePlan::Enhance { file_id, filename, mirror }
        },
    }
}

/// The kind of chat a message was sent to: a group or channel, with its
/// title where it has one, or a conversation with one user.
#[derive(Debug)]
pub enum ChatKind {
    Public(Option<String>),
    Private,
}

/// Who sent a message and where, for the log: the name of the user and the
/// title of the chat, `unknown` for what is not known, `private` for a
/// conversation with one user.
pub fn debug_format_message(username: Option<&str>, chat: &ChatKind) -> (r: String)
    ensures
        r@ == "user: "@ + (match username {
            Some(name) => name@,
            None => "unknown"@,
        }) + ", chat: "@ + (match *chat {
            ChatKind::Public(Some(title)) => title@,
            ChatKind::Public(None) => "unknown"@,
            ChatKind::Private => "private"@,
        }),
{
    let mut out = "user: ".to_owned();
    match username {
        Some(name) => out.append(name),
        None => out.append("unknown"),
    }
    out.append(", chat: ");
    match chat {
        ChatKind::Public(Some(title)) => out.append(title.as_str()),
        ChatKind::Public(None) => out.append("unknown"),
        ChatKind::Private => out.append("private"),
    }
    out
}

} // verus!
