//! Telling commands from chat, and reading a command.

use vstd::prelude::*;
use crate::arg::{classify, get_type, Reference, Type};
use crate::database::str_eq;
use crate::utility::{extract_first_word, extract_preceding_arg, first_word_bounds, preceding_arg_span, remove_non_command_characters, skip_while, CharClass};

verus! {

/// What `str::to_lowercase` gives for these characters.
pub uninterp spec fn lower_of(s: Seq<char>) -> Seq<char>;

/// Relies on `str::to_lowercase`: the lowercase form of a string, which
/// depends on its characters alone.
#[verifier::external_body]
fn lowercase(s: &str) -> (r: String)
    ensures
        r@ == lower_of(s@),
{
    s.to_lowercase()
}

/// A request to the bot.
pub enum Command {
    Auth(String),
    BotInfo,
    Quit,
    Restart,
    Feedback(String),
    About,
    Help,
    Global,
    Server,
    /// A channel's statistics: the current channel, or the one named.
    Channel(Option<u64>),
    /// A user's statistics: the author, or the user named.
    User(Option<u64>),
    Custom,
    LeastUsed,
    /// Any other word, which may be the pattern of an emoji.
    Word(String),
}

/// `r` is the command that a first word, in its lowercase form `lowered`
/// and as written, followed by `args`, asks for.
pub open spec fn is_command(r: Command, lowered: Seq<char>, word: Seq<char>, args: Seq<char>) -> bool {
    if word.len() == 0 {
        r is Help
    } else if lowered == "auth"@ {
        r is Auth && r->Auth_0@ == args
    } else if lowered == "botinfo"@ {
        r is BotInfo
    } else if lowered == "quit"@ {
        r is Quit
    } else if lowered == "restart"@ {
        r is Restart
    } else if lowered == "feedback"@ {
        r is Feedback && r->Feedback_0@ == args
    } else if lowered == "about"@ || lowered == "info"@ {
        r is About
    } else if lowered == "help"@ || lowered == "commands"@ {
        r is Help
    } else if lowered == "g"@ || lowered == "global"@ {
        r is Global
    } else if lowered == "s"@ || lowered == "server"@ {
        r is Server
    } else if lowered == "c"@ || lowered == "channel"@ {
        r == Command::Channel(None)
    } else if lowered == "m"@ || lowered == "me"@ {
        r == Command::User(None)
    } else if lowered == "u"@ || lowered == "custom"@ {
        r is Custom
    } else if lowered == "l"@ || lowered == "least-used"@ {
        r is LeastUsed
    } else {
        match classify(word) {
            Some(Reference::User(n)) => r == Command::User(Some(n)),
            Some(Reference::Channel(n)) => r == Command::Channel(Some(n)),
            _ => r is Word && r->Word_0@ == word,
        }
    }
}

/// The command that a first word asks for, given its lowercase form.
pub fn command_from_words(lowered: &str, word: &str, args: &str) -> (r: Command)
    ensures
        is_command(r, lowered@, word@, args@),
{
    if word.unicode_len() == 0 {
        Command::Help
    } else if str_eq(lowered, "auth") {
        Command::Auth(String::from_str(args))
    } else if str_eq(lowered, "botinfo") {
        Command::BotInfo
    } else if str_eq(lowered, "quit") {
        Command::Quit
    } else if str_eq(lowered, "restart") {
        Command::Restart
    } else if str_eq(lowered, "feedback") {
        Command::Feedback(String::from_str(args))
    } else if str_eq(lowered, "about") || str_eq(lowered, "info") {
        Command::About
    } else if str_eq(lowered, "help") || str_eq(lowered, "commands") {
        Command::Help
    } else if str_eq(lowered, "g") || str_eq(lowered, "global") {
        Command::Global
    } else if str_eq(lowered, "s") || str_eq(lowered, "server") {
        Command::Server
    } else if str_eq(lowered, "c") || str_eq(lowered, "channel") {
        Command::Channel(None)
    } else if str_eq(lowered, "m") || str_eq(lowered, "me") {
        Command::User(None)
    } else if str_eq(lowered, "u") || str_eq(lowered, "custom") {
        Command::Custom
    } else if str_eq(lowered, "l") || str_eq(lowered, "least-used") {
        Command::LeastUsed
    } else {
        match get_type(word) {
            Type::UserId(n) => Command::User(Some(n)),
            Type::ChannelId(n) => Command::Channel(Some(n)),
            _ => Command::Word(String::from_str(word)),
        }
    }
}

/// The command text once leading whitespace, commas and full stops are
/// skipped, split into its first word and the rest.
pub open spec fn command_words(text: Seq<char>) -> (Seq<char>, Seq<char>) {
    let t = text.subrange(skip_while(text, 0, CharClass::Filler), text.len() as int);
    let b = first_word_bounds(t);
    (t.subrange(b.0, b.1), t.subrange(b.2, t.len() as int))
}

/// Reads a command: its first word, case aside, names it, and the rest of
/// the text is its argument.
pub fn parse_command(text: &str) -> (r: Command)
    ensures
        is_command(r, lower_of(command_words(text@).0), command_words(text@).0, command_words(text@).1),
{
    let t = remove_non_command_characters(text);
    let (word, args) = extract_first_word(t);
    let lowered = lowercase(word);
    command_from_words(lowered.as_str(), word, args)
}

/// The command that a message holds, if it is one: the text after a leading
/// mention of the bot, or, in a private channel, the whole message.
pub fn message_command<'a>(content: &'a str, bot_user_id: u64, private: bool) -> (r: Option<&'a str>)
    ensures
        match preceding_arg_span(content@) {
            Some((a, e)) if classify(content@.subrange(a, e)) == Some(Reference::User(bot_user_id)) => {
                r is Some && r->Some_0@ == content@.subrange(e, content@.len() as int)
            },
            _ => if private {
                r is Some && r->Some_0@ == content@
            } else {
                r is None
            },
        },
{
    let (arg, rest) = extract_preceding_arg(content);
    match arg {
        Some(Type::UserId(id)) => {
            if id == bot_user_id {
                return Some(rest);
            }
        },
        _ => {},
    }
    if private {
        Some(content)
    } else {
        None
    }
}

} // verus!
