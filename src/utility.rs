//! Helpers that split a command message into its parts.

use vstd::prelude::*;
use crate::arg::{first_index_of, classify, get_type, is_classification, Type};

verus! {

/// The characters that Unicode gives the White_Space property.
pub open spec fn is_whitespace(c: char) -> bool {
    ('\u{9}' <= c && c <= '\u{d}') || c == ' ' || c == '\u{85}' || c == '\u{a0}'
        || c == '\u{1680}' || ('\u{2000}' <= c && c <= '\u{200a}') || c == '\u{2028}'
        || c == '\u{2029}' || c == '\u{202f}' || c == '\u{205f}' || c == '\u{3000}'
}

/// Classes of characters that the command helpers skip over.
pub enum CharClass {
    /// Whitespace.
    Space,
    /// Everything but whitespace.
    Word,
    /// Whitespace and the punctuation that may follow a mention.
    Filler,
}

pub open spec fn in_class(c: char, k: CharClass) -> bool {
    match k {
        CharClass::Space => is_whitespace(c),
        CharClass::Word => !is_whitespace(c),
        CharClass::Filler => is_whitespace(c) || c == ',' || c == '.',
    }
}

/// The first index at or after `from` whose character is not in class `k`
/// (the length of `s` if there is none).
pub open spec fn skip_while(s: Seq<char>, from: int, k: CharClass) -> int
    decreases s.len() - from,
{
    if from < 0 || from >= s.len() {
        from
    } else if in_class(s[from], k) {
        skip_while(s, from + 1, k)
    } else {
        from
    }
}

proof fn lemma_skip_while_bounds(s: Seq<char>, from: int, k: CharClass)
    requires
        0 <= from <= s.len(),
    ensures
        from <= skip_while(s, from, k) <= s.len(),
        forall|j: int| from <= j < skip_while(s, from, k) ==> in_class(#[trigger] s[j], k),
        skip_while(s, from, k) < s.len() ==> !in_class(s[skip_while(s, from, k)], k),
    decreases s.len() - from,
{
    if from < s.len() && in_class(s[from], k) {
        lemma_skip_while_bounds(s, from + 1, k);
    }
}

fn is_whitespace_char(c: char) -> (r: bool)
    ensures
        r == is_whitespace(c),
{
    ('\u{9}' <= c && c <= '\u{d}') || c == ' ' || c == '\u{85}' || c == '\u{a0}'
        || c == '\u{1680}' || ('\u{2000}' <= c && c <= '\u{200a}') || c == '\u{2028}'
        || c == '\u{2029}' || c == '\u{202f}' || c == '\u{205f}' || c == '\u{3000}'
}

fn char_in_class(c: char, k: &CharClass) -> (r: bool)
    ensures
        r == in_class(c, *k),
{
    match k {
        CharClass::Space => is_whitespace_char(c),
        CharClass::Word => !is_whitespace_char(c),
        CharClass::Filler => is_whitespace_char(c) || c == ',' || c == '.',
    }
}

fn skip_class(s: &str, n: usize, from: usize, k: CharClass) -> (r: usize)
    requires
        n == s@.len(),
        from <= n,
    ensures
        r as int == skip_while(s@, from as int, k),
        from <= r <= n,
{
    let mut i: usize = from;
    while i < n
        invariant
            from <= i <= n == s@.len(),
            skip_while(s@, from as int, k) == skip_while(s@, i as int, k),
        decreases n - i,
    {
        if !char_in_class(s.get_char(i), &k) {
            return i;
        }
        i = i + 1;
    }
    i
}

/// Removes from the start of `s` the whitespace, commas and full stops that
/// may stand between a mention and the command that follows it.
pub fn remove_non_command_characters(s: &str) -> (r: &str)
    ensures
        r@ == s@.subrange(skip_while(s@, 0, CharClass::Filler), s@.len() as int),
{
    let n = s.unicode_len();
    let k = skip_class(s, n, 0, CharClass::Filler);
    s.substring_char(k, n)
}

/// Where the first word of `s` starts, where it ends, and where what follows
/// it starts once the whitespace between them is skipped.
pub open spec fn first_word_bounds(s: Seq<char>) -> (int, int, int) {
    let a = skip_while(s, 0, CharClass::Space);
    let b = skip_while(s, a, CharClass::Word);
    (a, b, skip_while(s, b, CharClass::Space))
}

/// Splits `s` into its first word and the rest, with the whitespace before
/// each of them removed.
pub fn extract_first_word(s: &str) -> (r: (&str, &str))
    ensures
        r.0@ == s@.subrange(first_word_bounds(s@).0, first_word_bounds(s@).1),
        r.1@ == s@.subrange(first_word_bounds(s@).2, s@.len() as int),
{
    let n = s.unicode_len();
    let a = skip_class(s, n, 0, CharClass::Space);
    let b = skip_class(s, n, a, CharClass::Word);
    let c = skip_class(s, n, b, CharClass::Space);
    (s.substring_char(a, b), s.substring_char(c, n))
}

/// Where a reference that opens `s` stands: from its `<`, after any leading
/// whitespace, to just past the first `>` of `s`; only when that part is a
/// reference by the bracket grammar.
pub open spec fn preceding_arg_span(s: Seq<char>) -> Option<(int, int)> {
    let a = skip_while(s, 0, CharClass::Space);
    let g = first_index_of(s, '>', 0);
    if a < s.len() && s[a] == '<' && g >= 0 && classify(s.subrange(a, g + 1)) is Some {
        Some((a, g + 1))
    } else {
        None
    }
}

/// If `s` opens with a user, role, channel or custom emoji reference, returns
/// it with the rest of `s`; otherwise returns `None` with `s` unchanged.
pub fn extract_preceding_arg(s: &str) -> (r: (Option<Type>, &str))
    ensures
        match preceding_arg_span(s@) {
            Some((a, e)) => {
                &&& r.0 is Some
                &&& is_classification(r.0->Some_0, s@.subrange(a, e))
                &&& r.1@ == s@.subrange(e, s@.len() as int)
            },
            None => r.0 is None && r.1@ == s@,
        },
{
    let n = s.unicode_len();
    let a = skip_class(s, n, 0, CharClass::Space);
    if a < n && s.get_char(a) == '<' {
        let mut i: usize = 0;
        while i < n
            invariant
                i <= n == s@.len(),
                first_index_of(s@, '>', 0) == first_index_of(s@, '>', i as int),
                a as int == skip_while(s@, 0, CharClass::Space),
                a < n,
                s@[a as int] == '<',
            decreases n - i,
        {
            if s.get_char(i) == '>' {
                proof {
                    lemma_skip_while_bounds(s@, 0, CharClass::Space);
                }
                // whitespace precedes `a`, so the first `>` cannot stand before it
                assert(a <= i) by {
                    if i < a {
                        assert(0 <= i < skip_while(s@, 0, CharClass::Space));
                        assert(in_class(s@[i as int], CharClass::Space));
                    }
                }
                assert(first_index_of(s@, '>', i as int) == i);
                let t = get_type(s.substring_char(a, i + 1));
                match t {
                    Type::Text(_) => {
                        return (None, s);
                    },
                    _ => {
                        return (Some(t), s.substring_char(i + 1, n));
                    },
                }
            }
            i = i + 1;
        }
    }
    (None, s)
}

} // verus!
