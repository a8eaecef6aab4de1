//! The decisions of the bot that stand apart from the chat connection: how it
//! ends, who may administer it, and the text of its replies.

use vstd::prelude::*;
use crate::database::{custom_row, is_glyphs, lemma_custom_row_is, reaction_recorded, same_entity, str_eq, Database, ReactionRow};
use crate::model::{decimal, decimal_string};
use crate::report::plural;

verus! {

/// Why the bot could not start.
pub enum BotError {
    FailedToAuthenticate,
    FailedToConnect,
}

impl BotError {
    /// The status with which the process exits.
    pub fn exit_code(&self) -> (r: i32)
        ensures
            r == match *self {
                BotError::FailedToAuthenticate => 101i32,
                BotError::FailedToConnect => 102i32,
            },
    {
        match self {
            BotError::FailedToAuthenticate => 101,
            BotError::FailedToConnect => 102,
        }
    }
}

/// How the bot's event loop ended.
pub enum BotDisposition {
    Quit,
    Restart,
}

/// The answer to an attempt to authenticate as an administrator.
pub enum AuthOutcome {
    AlreadyAuthenticated,
    UsePrivateChannel,
    PasswordMissing,
    Authenticated,
    Refused,
}

/// Decides an attempt to authenticate: administrators need not, the
/// password is only taken in a private channel, and it must be given and
/// equal the configured one.
pub fn auth_outcome(is_admin: bool, in_private_channel: bool, attempt: &str, password: &str) -> (r: AuthOutcome)
    ensures
        r == if is_admin {
            AuthOutcome::AlreadyAuthenticated
        } else if !in_private_channel {
            AuthOutcome::UsePrivateChannel
        } else if attempt@.len() == 0 {
            AuthOutcome::PasswordMissing
        } else if attempt@ == password@ {
            AuthOutcome::Authenticated
        } else {
            AuthOutcome::Refused
        },
{
    if is_admin {
        AuthOutcome::AlreadyAuthenticated
    } else if !in_private_channel {
        AuthOutcome::UsePrivateChannel
    } else if attempt.unicode_len() == 0 {
        AuthOutcome::PasswordMissing
    } else if str_eq(attempt, password) {
        AuthOutcome::Authenticated
    } else {
        AuthOutcome::Refused
    }
}

/// The header of a ranking: `<title> (<count> total use(s))`.
pub open spec fn header_text(title: Seq<char>, count: u64) -> Seq<char> {
    title + " ("@ + decimal(count as nat) + " total use"@ + plural(count) + ")"@
}

pub fn uses_header(title: &str, count: u64) -> (r: String)
    ensures
        r@ == header_text(title@, count),
{
    let mut s = String::from_str(title);
    s.append(" (");
    let digits = decimal_string(count);
    s.append(digits.as_str());
    s.append(" total use");
    if count != 1 {
        s.append("s");
    }
    s.append(")");
    proof {
        reveal_strlit("s");
    }
    assert(s@ =~= header_text(title@, count));
    s
}

/// The reply about one emoji: how often it was used, or that it never was.
pub open spec fn emoji_reply_text(pattern: Seq<char>, count: Option<u64>) -> Seq<char> {
    match count {
        Some(n) if n > 0 => pattern + " has been used "@ + decimal(n as nat) + " time"@ + plural(n) + "."@,
        _ => "I've never seen anyone use "@ + pattern + "."@,
    }
}

pub fn emoji_usage_reply(pattern: &str, count: Option<u64>) -> (r: String)
    ensures
        r@ == emoji_reply_text(pattern@, count),
{
    match count {
        Some(n) => {
            if n > 0 {
                let mut s = String::from_str(pattern);
                s.append(" has been used ");
                let digits = decimal_string(n);
                s.append(digits.as_str());
                s.append(" time");
                if n != 1 {
                    s.append("s");
                }
                s.append(".");
                proof {
                    reveal_strlit("s");
                }
                assert(s@ =~= emoji_reply_text(pattern@, count));
                return s;
            }
        },
        None => {},
    }
    let mut s = String::from_str("I've never seen anyone use ");
    s.append(pattern);
    s.append(".");
    assert(s@ =~= emoji_reply_text(pattern@, count));
    s
}

/// The English text that chrono_humanize gives a duration of this many
/// seconds, such as "5 minutes ago".
pub uninterp spec fn human_time_of(seconds: i64) -> Seq<char>;

/// Relies on `chrono_humanize::HumanTime`'s `Display`, which renders a
/// `chrono::Duration` as English text; `chrono::Duration::seconds` panics
/// beyond `i64::MAX / 1000` seconds either way.
#[verifier::external_body]
fn human_time(seconds: i64) -> (r: String)
    requires
        -9_223_372_036_854_775 <= seconds <= 9_223_372_036_854_775,
    ensures
        r@ == human_time_of(seconds),
{
    format!("{}", chrono_humanize::HumanTime::from(chrono::Duration::seconds(seconds)))
}

/// The administrators' report on the bot.
pub open spec fn info_text(program: Seq<char>, version: Seq<char>, online: Seq<char>, servers: u64, channels: u64) -> Seq<char> {
    "**"@ + program + " version "@ + version + "**\nOnline since "@ + online + " on "@ + decimal(servers as nat)
        + " server"@ + plural(servers) + " comprising "@ + decimal(channels as nat) + " text channel"@ + plural(channels)
        + ". :clock2:"@
}

/// The report on the bot, given the text of how long it has been online.
pub fn bot_info_text_from(program: &str, version: &str, online: &str, servers: u64, channels: u64) -> (r: String)
    ensures
        r@ == info_text(program@, version@, online@, servers, channels),
{
    let mut s = String::from_str("**");
    s.append(program);
    s.append(" version ");
    s.append(version);
    s.append("**\nOnline since ");
    s.append(online);
    s.append(" on ");
    let n = decimal_string(servers);
    s.append(n.as_str());
    s.append(" server");
    if servers != 1 {
        s.append("s");
    }
    s.append(" comprising ");
    let m = decimal_string(channels);
    s.append(m.as_str());
    s.append(" text channel");
    if channels != 1 {
        s.append("s");
    }
    s.append(". :clock2:");
    proof {
        reveal_strlit("s");
    }
    assert(s@ =~= info_text(program@, version@, online@, servers, channels));
    s
}

/// The report on the bot, `online_since` seconds before now being when it
/// came online (a negative number, as the time is past). Durations beyond
/// what chrono can hold are cut to its bound.
pub fn bot_info_text(program: &str, version: &str, online_since: i64, servers: u64, channels: u64) -> (r: String)
    ensures
        r@ == info_text(
            program@,
            version@,
            human_time_of(
                if online_since < -9_223_372_036_854_775 {
                    -9_223_372_036_854_775i64
                } else if online_since > 9_223_372_036_854_775 {
                    9_223_372_036_854_775i64
                } else {
                    online_since
                },
            ),
            servers,
            channels,
        ),
{
    let bounded = if online_since < -9_223_372_036_854_775 {
        -9_223_372_036_854_775i64
    } else if online_since > 9_223_372_036_854_775 {
        9_223_372_036_854_775i64
    } else {
        online_since
    };
    let online = human_time(bounded);
    bot_info_text_from(program, version, online.as_str(), servers, channels)
}

/// The emoji of a reaction: a custom emoji by its id, or Unicode glyphs.
pub enum ReactionEmoji {
    Custom(u64),
    Unicode(String),
}

/// The row of the emoji table that a reaction's emoji has, if any.
pub open spec fn reaction_row(db: Database, emoji: ReactionEmoji) -> Option<int> {
    match emoji {
        ReactionEmoji::Custom(id) => custom_row(db.emoji@, id),
        ReactionEmoji::Unicode(g) => if exists|i: int| 0 <= i < db.emoji@.len() && is_glyphs(#[trigger] db.emoji@[i].emoji, g@) {
            Some(choose|i: int| 0 <= i < db.emoji@.len() && is_glyphs(#[trigger] db.emoji@[i].emoji, g@))
        } else {
            None
        },
    }
}

impl Database {
    /// Records a reaction in a known text channel. Reactions elsewhere, and
    /// reactions with an emoji that has no row, are ignored.
    pub fn log_reaction(&mut self, in_text_channel: bool, channel_id: u64, message_id: u64, user_id: u64, emoji: &ReactionEmoji)
        requires
            old(self).wf(),
        ensures
            final(self).wf(),
            final(self).emoji == old(self).emoji,
            final(self).usage == old(self).usage,
            final(self).messages == old(self).messages,
            final(self).reactions@ == match reaction_row(*old(self), *emoji) {
                Some(e) if in_text_channel => {
                    let r = ReactionRow { channel_id, message_id, user_id, emoji: e as usize };
                    if reaction_recorded(old(self).reactions@, r) {
                        old(self).reactions@
                    } else {
                        old(self).reactions@.push(r)
                    }
                },
                _ => old(self).reactions@,
            },
    {
        if !in_text_channel {
            return;
        }
        let found = match emoji {
            ReactionEmoji::Custom(id) => {
                let f = self.find_custom_emoji(*id);
                match f {
                    Some(e) => {
                        proof {
                            lemma_custom_row_is(self.emoji@, *id, e as int);
                        }
                    },
                    None => {},
                }
                f
            },
            ReactionEmoji::Unicode(g) => {
                let f = self.get_emoji_id(g.as_str());
                match f {
                    Some(e) => {
                        proof {
                            let c = choose|i: int| 0 <= i < self.emoji@.len() && is_glyphs(#[trigger] self.emoji@[i].emoji, g@);
                            assert(same_entity(self.emoji@[c].emoji, self.emoji@[e as int].emoji));
                        }
                    },
                    None => {},
                }
                f
            },
        };
        match found {
            Some(e) => self.record_reaction(channel_id, message_id, user_id, e),
            None => {},
        }
    }
}

} // verus!
