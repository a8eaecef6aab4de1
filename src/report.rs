//! The text of ranking replies.

use vstd::prelude::*;
use crate::bot::{header_text, uses_header};
use crate::model::{decimal, decimal_string, Emoji};

verus! {

/// `"s"` where a count is not one.
pub open spec fn plural(count: u64) -> Seq<char> {
    if count == 1 {
        Seq::empty()
    } else {
        seq!['s']
    }
}

/// One line of an emoji ranking: `<pattern> used <count> time(s)`.
pub open spec fn usage_line(pattern: Seq<char>, count: u64) -> Seq<char> {
    pattern + " used "@ + decimal(count as nat) + " time"@ + plural(count) + "\n"@
}

pub open spec fn usage_lines(rows: Seq<(Emoji, u64)>) -> Seq<char>
    decreases rows.len(),
{
    if rows.len() == 0 {
        Seq::empty()
    } else {
        usage_lines(rows.drop_last()) + usage_line(rows.last().0.pattern_view(), rows.last().1)
    }
}

/// One line of a users ranking: `<name> used <count> emoji`.
pub open spec fn user_line(name: Seq<char>, count: u64) -> Seq<char> {
    name + " used "@ + decimal(count as nat) + " emoji\n"@
}

pub open spec fn user_lines(rows: Seq<(String, u64)>) -> Seq<char>
    decreases rows.len(),
{
    if rows.len() == 0 {
        Seq::empty()
    } else {
        user_lines(rows.drop_last()) + user_line(rows.last().0@, rows.last().1)
    }
}

/// The lines of an emoji ranking, one per emoji.
pub fn create_emoji_usage_line(emoji_usage: Vec<(Emoji, u64)>) -> (r: String)
    ensures
        r@ == usage_lines(emoji_usage@),
{
    let mut stats = String::new();
    let mut i: usize = 0;
    while i < emoji_usage.len()
        invariant
            i <= emoji_usage@.len(),
            stats@ == usage_lines(emoji_usage@.subrange(0, i as int)),
        decreases emoji_usage@.len() - i,
    {
        let (emoji, count) = &emoji_usage[i];
        let ghost before = stats@;
        stats.append(emoji.pattern());
        stats.append(" used ");
        let digits = decimal_string(*count);
        stats.append(digits.as_str());
        stats.append(" time");
        if *count != 1 {
            stats.append("s");
        }
        stats.append("\n");
        proof {
            let s = emoji_usage@.subrange(0, i + 1);
            assert(s.drop_last() =~= emoji_usage@.subrange(0, i as int));
            reveal_strlit("s");
            assert(stats@ =~= before + usage_line(emoji.pattern_view(), *count));
        }
        i = i + 1;
    }
    assert(emoji_usage@.subrange(0, i as int) =~= emoji_usage@);
    stats
}

/// The lines of a users ranking, one per user.
pub fn create_top_users_line(emoji_usage: Vec<(String, u64)>) -> (r: String)
    ensures
        r@ == user_lines(emoji_usage@),
{
    let mut stats = String::new();
    let mut i: usize = 0;
    while i < emoji_usage.len()
        invariant
            i <= emoji_usage@.len(),
            stats@ == user_lines(emoji_usage@.subrange(0, i as int)),
        decreases emoji_usage@.len() - i,
    {
        let (name, count) = &emoji_usage[i];
        let ghost before = stats@;
        stats.append(name.as_str());
        stats.append(" used ");
        let digits = decimal_string(*count);
        stats.append(digits.as_str());
        stats.append(" emoji\n");
        proof {
            let s = emoji_usage@.subrange(0, i + 1);
            assert(s.drop_last() =~= emoji_usage@.subrange(0, i as int));
            assert(stats@ =~= before + user_line(name@, *count));
        }
        i = i + 1;
    }
    assert(emoji_usage@.subrange(0, i as int) =~= emoji_usage@);
    stats
}

/// A reply field as text: its heading and its body.
pub open spec fn fields_view(v: Seq<(String, String)>) -> Seq<(Seq<char>, Seq<char>)> {
    v.map_values(|f: (String, String)| (f.0@, f.1@))
}

/// The fields of a ranking reply: the top emoji under a header with their
/// total, the top reaction emoji likewise, each only where it is not empty,
/// and the top users where they are given and there are top emoji.
pub open spec fn ranking_fields_text(
    top: Seq<(Emoji, u64)>,
    top_uses: u64,
    reactions: Seq<(Emoji, u64)>,
    reaction_uses: u64,
    users: Option<Seq<(String, u64)>>,
) -> Seq<(Seq<char>, Seq<char>)> {
    (if top.len() > 0 {
        seq![(header_text("Top Emoji"@, top_uses), usage_lines(top))]
    } else {
        Seq::empty()
    }) + (if reactions.len() > 0 {
        seq![(header_text("Top Reaction Emoji"@, reaction_uses), usage_lines(reactions))]
    } else {
        Seq::empty()
    }) + match users {
        Some(u) if top.len() > 0 => seq![("Top Emoji Users"@, user_lines(u))],
        _ => Seq::empty(),
    }
}

pub open spec fn users_view(users: Option<Vec<(String, u64)>>) -> Option<Seq<(String, u64)>> {
    match users {
        Some(u) => Some(u@),
        None => None,
    }
}

/// The fields of a ranking reply, or `None` where nothing was ever used and
/// the reply is a plain message instead.
pub fn ranking_fields(
    top: Vec<(Emoji, u64)>,
    top_uses: u64,
    reactions: Vec<(Emoji, u64)>,
    reaction_uses: u64,
    users: Option<Vec<(String, u64)>>,
) -> (r: Option<Vec<(String, String)>>)
    ensures
        match r {
            Some(f) => (top@.len() > 0 || reactions@.len() > 0) && fields_view(f@) == ranking_fields_text(
                top@,
                top_uses,
                reactions@,
                reaction_uses,
                users_view(users),
            ),
            None => top@.len() == 0 && reactions@.len() == 0,
        },
{
    let has_top = top.len() > 0;
    let has_reactions = reactions.len() > 0;
    if !has_top && !has_reactions {
        return None;
    }
    let ghost top_v = top@;
    let ghost reactions_v = reactions@;
    let ghost users_v = users_view(users);
    let mut fields: Vec<(String, String)> = Vec::new();
    let ghost f0 = fields@;
    if has_top {
        fields.push((uses_header("Top Emoji", top_uses), create_emoji_usage_line(top)));
    }
    let ghost f1 = fields@;
    if has_reactions {
        fields.push((uses_header("Top Reaction Emoji", reaction_uses), create_emoji_usage_line(reactions)));
    }
    let ghost f2 = fields@;
    match users {
        Some(u) => {
            if has_top {
                fields.push((String::from_str("Top Emoji Users"), create_top_users_line(u)));
            }
        },
        None => {},
    }
    proof {
        let a: Seq<(Seq<char>, Seq<char>)> = if top_v.len() > 0 {
            seq![(header_text("Top Emoji"@, top_uses), usage_lines(top_v))]
        } else {
            Seq::empty()
        };
        let b: Seq<(Seq<char>, Seq<char>)> = if reactions_v.len() > 0 {
            seq![(header_text("Top Reaction Emoji"@, reaction_uses), usage_lines(reactions_v))]
        } else {
            Seq::empty()
        };
        let c: Seq<(Seq<char>, Seq<char>)> = match users_v {
            Some(u) if top_v.len() > 0 => seq![("Top Emoji Users"@, user_lines(u))],
            _ => Seq::empty(),
        };
        assert(fields_view(f1) =~= a);
        assert(fields_view(f2) =~= a + b);
        assert(fields_view(fields@) =~= a + b + c);
    }
    Some(fields)
}

/// The header of a user's favourite emoji: what the user, or the author,
/// used, on this server or everywhere.
pub open spec fn user_header_text(own: bool, name: Seq<char>, count: u64, on_server: bool) -> Seq<char> {
    "All in all, "@ + (if own { "you have"@ } else { name + " has"@ }) + " used "@ + decimal(count as nat)
        + " emoji"@ + (if on_server { " on this server"@ } else { Seq::empty() }) + ":"@
}

pub fn user_header(own: bool, name: &str, count: u64, on_server: bool) -> (r: String)
    ensures
        r@ == user_header_text(own, name@, count, on_server),
{
    let mut s = String::from_str("All in all, ");
    if own {
        s.append("you have");
    } else {
        s.append(name);
        s.append(" has");
    }
    s.append(" used ");
    let digits = decimal_string(count);
    s.append(digits.as_str());
    s.append(" emoji");
    if on_server {
        s.append(" on this server");
    }
    s.append(":");
    assert(s@ =~= user_header_text(own, name@, count, on_server));
    s
}

} // verus!
