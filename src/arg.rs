//! Classification of a single token as a user, role, channel or custom emoji
//! reference, or as plain text.

use vstd::prelude::*;

verus! {

/// What a token was recognised as.
pub enum Type {
    UserId(u64),
    ChannelId(u64),
    RoleId(u64),
    EmojiId(u64),
    Text(String),
}

/// The kinds of bracketed reference, with the id that each carries.
pub enum Reference {
    User(u64),
    Channel(u64),
    Role(u64),
    Emoji(u64),
}

pub open spec fn starts_with(s: Seq<char>, p: Seq<char>) -> bool {
    p.len() <= s.len() && s.subrange(0, p.len() as int) == p
}

/// The first index at or after `from` that holds `c`, or -1 if none does.
pub open spec fn first_index_of(s: Seq<char>, c: char, from: int) -> int
    decreases s.len() - from,
{
    if from < 0 || from >= s.len() {
        -1
    } else if s[from] == c {
        from
    } else {
        first_index_of(s, c, from + 1)
    }
}

/// The id of a custom emoji reference `<:name:digits>`: the name holds at
/// least one character and the id follows the first colon after it.
pub open spec fn emoji_ref_id(s: Seq<char>) -> Option<u64> {
    let k = first_index_of(s, ':', 3);
    if s.len() >= 4 && k >= 0 {
        parse_id(s.subrange(k + 1, s.len() - 1))
    } else {
        None
    }
}

/// The reference that the bracket grammar finds in a token, if any.
pub open spec fn classify(s: Seq<char>) -> Option<Reference> {
    if s.len() == 0 || s.last() != '>' {
        None
    } else if starts_with(s, seq!['<', '@', '!']) {
        match parse_id(s.subrange(3, s.len() - 1)) {
            Some(n) => Some(Reference::User(n)),
            None => None,
        }
    } else if starts_with(s, seq!['<', '@', '&']) {
        match parse_id(s.subrange(3, s.len() - 1)) {
            Some(n) => Some(Reference::Role(n)),
            None => None,
        }
    } else if starts_with(s, seq!['<', '@']) {
        match parse_id(s.subrange(2, s.len() - 1)) {
            Some(n) => Some(Reference::User(n)),
            None => None,
        }
    } else if starts_with(s, seq!['<', '#']) {
        match parse_id(s.subrange(2, s.len() - 1)) {
            Some(n) => Some(Reference::Channel(n)),
            None => None,
        }
    } else if starts_with(s, seq!['<', ':']) {
        match emoji_ref_id(s) {
            Some(n) => Some(Reference::Emoji(n)),
            None => None,
        }
    } else {
        None
    }
}

/// `t` is what classifying the token `s` gives: the reference it names, or
/// the token itself as text.
pub open spec fn is_classification(t: Type, s: Seq<char>) -> bool {
    match classify(s) {
        Some(Reference::User(n)) => t == Type::UserId(n),
        Some(Reference::Role(n)) => t == Type::RoleId(n),
        Some(Reference::Channel(n)) => t == Type::ChannelId(n),
        Some(Reference::Emoji(n)) => t == Type::EmojiId(n),
        None => t is Text && t->Text_0@ == s,
    }
}

/// The value of a decimal digit character.
pub open spec fn digit_value(c: char) -> int {
    (c as u32) as int - ('0' as u32) as int
}

pub open spec fn is_digit(c: char) -> bool {
    '0' <= c && c <= '9'
}

pub open spec fn all_digits(s: Seq<char>) -> bool {
    forall|i: int| 0 <= i < s.len() ==> is_digit(#[trigger] s[i])
}

/// The number that a run of decimal digits denotes.
pub open spec fn digits_value(s: Seq<char>) -> nat
    decreases s.len(),
{
    if s.len() == 0 {
        0
    } else {
        (digits_value(s.drop_last()) * 10 + digit_value(s.last())) as nat
    }
}

/// What parsing `s` as an unsigned 64-bit integer gives: a non-empty run of
/// digits whose value fits.
pub open spec fn parse_id(s: Seq<char>) -> Option<u64> {
    if s.len() > 0 && all_digits(s) && digits_value(s) <= u64::MAX {
        Some(digits_value(s) as u64)
    } else {
        None
    }
}

proof fn lemma_digits_value_prefix(s: Seq<char>, i: int)
    requires
        0 <= i <= s.len(),
        all_digits(s),
    ensures
        digits_value(s.subrange(0, i)) <= digits_value(s),
    decreases s.len() - i,
{
    if i < s.len() {
        lemma_digits_value_prefix(s, i + 1);
        let t = s.subrange(0, i + 1);
        assert(t.drop_last() =~= s.subrange(0, i));
        assert(is_digit(t.last()));
    }
    else {
        assert(s.subrange(0, i) =~= s);
    }
}

/// Parses the characters `s[from..to]` as an unsigned 64-bit integer.
fn parse_id_range(s: &str, from: usize, to: usize) -> (r: Option<u64>)
    requires
        from <= to <= s@.len(),
    ensures
        r == parse_id(s@.subrange(from as int, to as int)),
{
    let ghost t = s@.subrange(from as int, to as int);
    if from == to {
        return None;
    }
    let mut acc: u64 = 0;
    let mut i: usize = from;
    while i < to
        invariant
            from <= i <= to <= s@.len(),
            t == s@.subrange(from as int, to as int),
            all_digits(t.subrange(0, i - from)),
            acc as nat == digits_value(t.subrange(0, i - from)),
        decreases to - i,
    {
        let c = s.get_char(i);
        let ghost p = t.subrange(0, i + 1 - from);
        assert(p.drop_last() =~= t.subrange(0, i - from));
        if !('0' <= c && c <= '9') {
            assert(!all_digits(t)) by {
                assert(t[i - from] == c);
            }
            return None;
        }
        let d: u64 = (c as u32 - '0' as u32) as u64;
        assert(all_digits(p)) by {
            assert forall|j: int| 0 <= j < p.len() implies is_digit(#[trigger] p[j]) by {
                if j < p.len() - 1 {
                    assert(p[j] == t.subrange(0, i - from)[j]);
                }
            }
        }
        if acc > (u64::MAX - d) / 10 {
            assert(digits_value(p) > u64::MAX) by (nonlinear_arith)
                requires
                    acc > (u64::MAX - d) / 10,
                    digits_value(p) == acc * 10 + d,
            ;
            proof {
                if all_digits(t) {
                    lemma_digits_value_prefix(t, i + 1 - from);
                }
            }
            return None;
        }
        acc = acc * 10 + d;
        i = i + 1;
    }
    assert(t.subrange(0, to - from) =~= t);
    Some(acc)
}

proof fn lemma_first_index_skips(s: Seq<char>, c: char, from: int, to: int)
    requires
        0 <= from <= to < s.len(),
        s[to] == c,
        forall|j: int| from <= j < to ==> s[j] != c,
    ensures
        first_index_of(s, c, from) == to,
    decreases to - from,
{
    if from < to {
        lemma_first_index_skips(s, c, from + 1, to);
    }
}

proof fn lemma_first_index_none(s: Seq<char>, c: char, from: int)
    requires
        0 <= from,
        forall|j: int| from <= j < s.len() ==> s[j] != c,
    ensures
        first_index_of(s, c, from) == -1,
    decreases s.len() - from,
{
    if from < s.len() {
        lemma_first_index_none(s, c, from + 1);
    }
}

/// The bracket grammar, form by form: a token made of a form's opening, an
/// id part `x` and `>` is the form's reference exactly when `x` parses as an
/// unsigned 64-bit integer (non-empty, digits only, not above `u64::MAX`),
/// and text otherwise. A custom emoji without a second colon, and any token
/// whose last character is not `>`, is text.
pub proof fn lemma_bracket_grammar(x: Seq<char>, name: Seq<char>, y: Seq<char>, t: Seq<char>)
    ensures
        parse_id(x) is None <==> (x.len() == 0 || !all_digits(x) || digits_value(x) > u64::MAX),
        classify(seq!['<', '@', '!'] + x + seq!['>']) == match parse_id(x) {
            Some(n) => Some(Reference::User(n)),
            None => None,
        },
        classify(seq!['<', '@', '&'] + x + seq!['>']) == match parse_id(x) {
            Some(n) => Some(Reference::Role(n)),
            None => None,
        },
        classify(seq!['<', '#'] + x + seq!['>']) == match parse_id(x) {
            Some(n) => Some(Reference::Channel(n)),
            None => None,
        },
        !(x.len() > 0 && (x[0] == '!' || x[0] == '&')) ==> classify(seq!['<', '@'] + x + seq!['>']) == match parse_id(x) {
            Some(n) => Some(Reference::User(n)),
            None => None,
        },
        name.len() > 0 && (forall|j: int| 0 <= j < name.len() ==> name[j] != ':') ==> classify(
            seq!['<', ':'] + name + seq![':'] + x + seq!['>'],
        ) == match parse_id(x) {
            Some(n) => Some(Reference::Emoji(n)),
            None => None,
        },
        (forall|j: int| 1 <= j < y.len() ==> y[j] != ':') ==> classify(seq!['<', ':'] + y + seq!['>']) is None,
        t.len() == 0 || t.last() != '>' ==> classify(t) is None,
{
    let nick = seq!['<', '@', '!'] + x + seq!['>'];
    assert(nick.subrange(0, 3) =~= seq!['<', '@', '!']);
    assert(nick.subrange(3, nick.len() - 1) =~= x);
    let role = seq!['<', '@', '&'] + x + seq!['>'];
    assert(role.subrange(0, 3) =~= seq!['<', '@', '&']);
    assert(role.subrange(3, role.len() - 1) =~= x);
    assert(role[2] != '!');
    let chan = seq!['<', '#'] + x + seq!['>'];
    assert(chan.subrange(0, 2) =~= seq!['<', '#']);
    assert(chan.subrange(2, chan.len() - 1) =~= x);
    assert(!starts_with(chan, seq!['<', '@'])) by {
        if starts_with(chan, seq!['<', '@']) {
            assert(chan.subrange(0, 2)[1] == chan[1]);
        }
    }
    assert(!starts_with(chan, seq!['<', '@', '!'])) by {
        if starts_with(chan, seq!['<', '@', '!']) {
            assert(chan.subrange(0, 3)[1] == chan[1]);
        }
    }
    assert(!starts_with(chan, seq!['<', '@', '&'])) by {
        if starts_with(chan, seq!['<', '@', '&']) {
            assert(chan.subrange(0, 3)[1] == chan[1]);
        }
    }
    if !(x.len() > 0 && (x[0] == '!' || x[0] == '&')) {
        let user = seq!['<', '@'] + x + seq!['>'];
        assert(user.subrange(0, 2) =~= seq!['<', '@']);
        assert(user.subrange(2, user.len() - 1) =~= x);
        assert(user[2] != '!' && user[2] != '&') by {
            if x.len() > 0 {
                assert(user[2] == x[0]);
            } else {
                assert(user[2] == '>');
            }
        }
        assert(!starts_with(user, seq!['<', '@', '!'])) by {
            if starts_with(user, seq!['<', '@', '!']) {
                assert(user.subrange(0, 3)[2] == user[2]);
            }
        }
        assert(!starts_with(user, seq!['<', '@', '&'])) by {
            if starts_with(user, seq!['<', '@', '&']) {
                assert(user.subrange(0, 3)[2] == user[2]);
            }
        }
    }
    if name.len() > 0 && (forall|j: int| 0 <= j < name.len() ==> name[j] != ':') {
        let e = seq!['<', ':'] + name + seq![':'] + x + seq!['>'];
        let k = 2 + name.len() as int;
        assert(e.subrange(0, 2) =~= seq!['<', ':']);
        assert(e[k] == ':');
        assert forall|j: int| 3 <= j < k implies e[j] != ':' by {
            assert(e[j] == name[j - 2]);
        }
        lemma_first_index_skips(e, ':', 3, k);
        assert(e.subrange(k + 1, e.len() - 1) =~= x);
        lemma_not_other_forms(e);
    }
    if forall|j: int| 1 <= j < y.len() ==> y[j] != ':' {
        let e = seq!['<', ':'] + y + seq!['>'];
        assert(e.subrange(0, 2) =~= seq!['<', ':']);
        assert forall|j: int| 3 <= j < e.len() implies e[j] != ':' by {
            if j < e.len() - 1 {
                assert(e[j] == y[j - 2]);
            }
        }
        lemma_first_index_none(e, ':', 3);
        lemma_not_other_forms(e);
    }
}

/// A token that opens with `<:` opens with none of the other forms.
proof fn lemma_not_other_forms(e: Seq<char>)
    requires
        e.len() >= 2,
        e[1] == ':',
    ensures
        !starts_with(e, seq!['<', '@']),
        !starts_with(e, seq!['<', '#']),
        !starts_with(e, seq!['<', '@', '!']),
        !starts_with(e, seq!['<', '@', '&']),
{
    if starts_with(e, seq!['<', '@']) {
        assert(e.subrange(0, 2)[1] == e[1]);
    }
    if starts_with(e, seq!['<', '#']) {
        assert(e.subrange(0, 2)[1] == e[1]);
    }
    if starts_with(e, seq!['<', '@', '!']) {
        assert(e.subrange(0, 3)[1] == e[1]);
    }
    if starts_with(e, seq!['<', '@', '&']) {
        assert(e.subrange(0, 3)[1] == e[1]);
    }
}

fn char_is(s: &str, n: usize, i: usize, c: char) -> (r: bool)
    requires
        n == s@.len(),
    ensures
        r == (i < n && s@[i as int] == c),
{
    i < n && s.get_char(i) == c
}

/// The index of the first `:` at or after `from` in `s`, if any.
fn find_colon(s: &str, n: usize, from: usize) -> (r: Option<usize>)
    requires
        n == s@.len(),
        from <= n,
    ensures
        match r {
            Some(k) => k as int == first_index_of(s@, ':', from as int) && k < n && s@[k as int] == ':',
            None => first_index_of(s@, ':', from as int) == -1,
        },
{
    let mut i: usize = from;
    while i < n
        invariant
            from <= i <= n == s@.len(),
            first_index_of(s@, ':', from as int) == first_index_of(s@, ':', i as int),
        decreases n - i,
    {
        if s.get_char(i) == ':' {
            return Some(i);
        }
        i = i + 1;
    }
    None
}

/// Classifies a token by the bracket grammar for references: `<@!id>` and
/// `<@id>` name a user, `<@&id>` a role, `<#id>` a channel and
/// `<:name:id>` a custom emoji. Anything else is returned as text.
pub fn get_type(arg: &str) -> (r: Type)
    ensures
        is_classification(r, arg@),
{
    let n = arg.unicode_len();
    let ghost s = arg@;
    if n >= 1 && arg.get_char(n - 1) == '>' {
        let lt = char_is(arg, n, 0, '<');
        let at = char_is(arg, n, 1, '@');
        if lt && at && char_is(arg, n, 2, '!') {
            assert(starts_with(s, seq!['<', '@', '!'])) by {
                assert(s.subrange(0, 3) =~= seq!['<', '@', '!']);
            }
            if let Some(id) = parse_id_range(arg, 3, n - 1) {
                return Type::UserId(id);
            }
        } else if lt && at && char_is(arg, n, 2, '&') {
            assert(s.subrange(0, 3) =~= seq!['<', '@', '&']);
            if let Some(id) = parse_id_range(arg, 3, n - 1) {
                return Type::RoleId(id);
            }
        } else if lt && at {
            assert(s.subrange(0, 2) =~= seq!['<', '@']);
            assert(s[2] == s.subrange(0, 3)[2]);
            if let Some(id) = parse_id_range(arg, 2, n - 1) {
                return Type::UserId(id);
            }
        } else if lt && char_is(arg, n, 1, '#') {
            assert(s.subrange(0, 2) =~= seq!['<', '#']);
            assert(s[1] == s.subrange(0, 2)[1]);
            if let Some(id) = parse_id_range(arg, 2, n - 1) {
                return Type::ChannelId(id);
            }
        } else if lt && char_is(arg, n, 1, ':') {
            assert(s.subrange(0, 2) =~= seq!['<', ':']);
            assert(s[1] == s.subrange(0, 2)[1]);
            if n >= 4 {
                if let Some(k) = find_colon(arg, n, 3) {
                    if let Some(id) = parse_id_range(arg, k + 1, n - 1) {
                        return Type::EmojiId(id);
                    }
                }
            }
        } else {
            assert(!starts_with(s, seq!['<', '@'])) by {
                if starts_with(s, seq!['<', '@']) {
                    assert(s[0] == s.subrange(0, 2)[0]);
                    assert(s[1] == s.subrange(0, 2)[1]);
                }
            }
            assert(!starts_with(s, seq!['<', '#'])) by {
                if starts_with(s, seq!['<', '#']) {
                    assert(s[0] == s.subrange(0, 2)[0]);
                    assert(s[1] == s.subrange(0, 2)[1]);
                }
            }
            assert(!starts_with(s, seq!['<', ':'])) by {
                if starts_with(s, seq!['<', ':']) {
                    assert(s[0] == s.subrange(0, 2)[0]);
                    assert(s[1] == s.subrange(0, 2)[1]);
                }
            }
            assert(!starts_with(s, seq!['<', '@', '!'])) by {
                if starts_with(s, seq!['<', '@', '!']) {
                    assert(s[0] == s.subrange(0, 3)[0]);
                    assert(s[1] == s.subrange(0, 3)[1]);
                }
            }
            assert(!starts_with(s, seq!['<', '@', '&'])) by {
                if starts_with(s, seq!['<', '@', '&']) {
                    assert(s[0] == s.subrange(0, 3)[0]);
                    assert(s[1] == s.subrange(0, 3)[1]);
                }
            }
        }
    }
    Type::Text(String::from_str(arg))
}

} // verus!
