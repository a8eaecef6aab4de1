//! Recording what a message and a reaction contribute to the statistics.

use vstd::prelude::*;
use crate::database::{
    key_count, message_recorded, reaction_recorded, Database, EmojiRow, MessageRow, ReactionRow,
};
use crate::model::Emoji;

verus! {

/// How many times `p` occurs in `s`, counting from the left without overlap.
/// An empty pattern occurs nowhere.
pub open spec fn occurrences(s: Seq<char>, p: Seq<char>) -> nat
    decreases s.len(),
{
    if p.len() == 0 || s.len() < p.len() {
        0
    } else if s.subrange(0, p.len() as int) == p {
        1 + occurrences(s.subrange(p.len() as int, s.len() as int), p)
    } else {
        occurrences(s.subrange(1, s.len() as int), p)
    }
}

/// Whether `p` occurs in `s` at index `i`.
fn occurs_at(s: &str, n: usize, p: &str, m: usize, i: usize) -> (r: bool)
    requires
        n == s@.len(),
        m == p@.len(),
        i + m <= n,
    ensures
        r == (s@.subrange(i as int, i + m) == p@),
{
    let mut k: usize = 0;
    while k < m
        invariant
            k <= m == p@.len(),
            i + m <= n == s@.len(),
            forall|j: int| 0 <= j < k ==> s@[i + j] == p@[j],
        decreases m - k,
    {
        if s.get_char(i + k) != p.get_char(k) {
            assert(s@.subrange(i as int, i + m)[k as int] != p@[k as int]);
            return false;
        }
        k = k + 1;
    }
    assert(s@.subrange(i as int, i + m) =~= p@);
    true
}

/// Counts the occurrences of `pattern` in `text`, from the left and without
/// overlap.
pub fn count_occurrences(text: &str, pattern: &str) -> (r: u64)
    ensures
        r == occurrences(text@, pattern@),
{
    let n = text.unicode_len();
    let m = pattern.unicode_len();
    if m == 0 {
        return 0;
    }
    if m > n {
        return 0;
    }
    let mut count: u64 = 0;
    let mut i: usize = 0;
    assert(text@.subrange(0, n as int) =~= text@);
    while i <= n - m
        invariant
            m <= n,
            i <= n == text@.len(),
            m == pattern@.len() > 0,
            count <= i,
            occurrences(text@, pattern@) == count + occurrences(text@.subrange(i as int, n as int), pattern@),
        decreases n - i,
    {
        let ghost rest = text@.subrange(i as int, n as int);
        if occurs_at(text, n, pattern, m, i) {
            assert(rest.subrange(0, m as int) =~= text@.subrange(i as int, i + m));
            assert(rest.subrange(m as int, rest.len() as int) =~= text@.subrange(i + m, n as int));
            count = count + 1;
            i = i + m;
        } else {
            assert(rest.subrange(0, m as int) =~= text@.subrange(i as int, i + m));
            assert(rest.subrange(1, rest.len() as int) =~= text@.subrange(i + 1, n as int));
            i = i + 1;
        }
    }
    assert(occurrences(text@.subrange(i as int, n as int), pattern@) == 0);
    count
}

/// Whether a message counts uses of the emoji of this row: every Unicode
/// emoji counts, and the active custom emoji of the message's server.
pub open spec fn counted(row: EmojiRow, server_id: Option<u64>) -> bool {
    match row.emoji {
        Emoji::Unicode(_) => true,
        Emoji::Custom(c) => row.is_active && server_id == Some(c.server_id),
    }
}

/// The uses of the emoji at row `e` that a message with this body holds.
pub open spec fn uses_of(rows: Seq<EmojiRow>, server_id: Option<u64>, body: Seq<char>, e: int) -> nat {
    if counted(rows[e], server_id) {
        occurrences(body, rows[e].emoji.pattern_view())
    } else {
        0
    }
}

/// The uses, in a message with this body, of the emoji of the first `k` rows.
pub open spec fn uses_upto(rows: Seq<EmojiRow>, server_id: Option<u64>, body: Seq<char>, k: int) -> nat
    decreases k,
{
    if k <= 0 {
        0
    } else {
        uses_upto(rows, server_id, body, k - 1) + uses_of(rows, server_id, body, k - 1)
    }
}

proof fn lemma_uses_upto_monotone(rows: Seq<EmojiRow>, server_id: Option<u64>, body: Seq<char>, j: int, k: int)
    requires
        0 <= j <= k,
    ensures
        uses_upto(rows, server_id, body, j) <= uses_upto(rows, server_id, body, k),
    decreases k - j,
{
    if j < k {
        lemma_uses_upto_monotone(rows, server_id, body, j, k - 1);
    }
}

/// What recording message `id` turns `old` into. A message that was recorded
/// before changes nothing. Otherwise the message is recorded with its count
/// of emoji, and, where the store's total has room for them, each counted
/// emoji's uses are added to the count of the author in the channel.
pub open spec fn record_effect(
    old: Database,
    new: Database,
    id: u64,
    channel_id: u64,
    user_id: u64,
    server_id: Option<u64>,
    body: Seq<char>,
) -> bool {
    let rows = old.emoji@;
    let total = uses_upto(rows, server_id, body, rows.len() as int);
    if message_recorded(old.messages@, id) {
        new == old
    } else {
        &&& new.messages@ == old.messages@.push(
            MessageRow {
                id,
                channel_id,
                user_id,
                emoji_count: if total <= u64::MAX { total as u64 } else { u64::MAX },
            },
        )
        &&& new.emoji == old.emoji
        &&& new.channels == old.channels
        &&& new.users == old.users
        &&& new.reactions == old.reactions
        &&& old.usage_sum + total <= u64::MAX ==> {
            &&& new.usage_sum == old.usage_sum + total
            &&& forall|c: u64, u: u64, e: int| #[trigger] key_count(new.usage@, c, u, e)
                == key_count(old.usage@, c, u, e) + if c == channel_id && u == user_id && 0 <= e
                < rows.len() {
                uses_of(rows, server_id, body, e) as int
            } else {
                0
            }
        }
    }
}

/// Recording a message a second time, under the same id, changes nothing:
/// the usage counts stay as the first recording left them.
pub proof fn lemma_record_idempotent(
    d0: Database,
    d1: Database,
    d2: Database,
    id: u64,
    channel_id: u64,
    user_id: u64,
    server_id: Option<u64>,
    body: Seq<char>,
)
    requires
        record_effect(d0, d1, id, channel_id, user_id, server_id, body),
        record_effect(d1, d2, id, channel_id, user_id, server_id, body),
    ensures
        d2 == d1,
        d2.usage@ == d1.usage@,
        message_recorded(d2.messages@, id),
{
    if !message_recorded(d0.messages@, id) {
        let n = d1.messages@.len() - 1;
        assert(d1.messages@[n].id == id);
    }
}

impl Database {
    /// Records that a user reacted to a message with the emoji of row
    /// `emoji`; a reaction that was recorded before is not recorded again.
    pub fn record_reaction(&mut self, channel_id: u64, message_id: u64, user_id: u64, emoji: usize)
        requires
            old(self).wf(),
            emoji < old(self).emoji@.len(),
        ensures
            final(self).wf(),
            final(self).reactions@ == if reaction_recorded(
                old(self).reactions@,
                ReactionRow { channel_id, message_id, user_id, emoji },
            ) {
                old(self).reactions@
            } else {
                old(self).reactions@.push(ReactionRow { channel_id, message_id, user_id, emoji })
            },
            final(self).emoji == old(self).emoji,
            final(self).channels == old(self).channels,
            final(self).users == old(self).users,
            final(self).usage == old(self).usage,
            final(self).messages == old(self).messages,
            final(self).usage_sum == old(self).usage_sum,
    {
        let ghost target = ReactionRow { channel_id, message_id, user_id, emoji };
        let mut i: usize = 0;
        while i < self.reactions.len()
            invariant
                i <= self.reactions@.len(),
                *self == *old(self),
                self.wf(),
                target == (ReactionRow { channel_id, message_id, user_id, emoji }),
                forall|j: int| 0 <= j < i ==> #[trigger] self.reactions@[j] != target,
            decreases self.reactions@.len() - i,
        {
            let r = &self.reactions[i];
            if r.channel_id == channel_id && r.message_id == message_id && r.user_id == user_id && r.emoji == emoji {
                assert(self.reactions@[i as int] == target);
                return;
            }
            i = i + 1;
        }
        let ghost rows = self.reactions@;
        self.reactions.push(ReactionRow { channel_id, message_id, user_id, emoji });
        assert forall|j: int| 0 <= j < self.reactions@.len() implies (#[trigger] self.reactions@[j]).emoji
            < self.emoji@.len() by {
            if j < rows.len() {
                assert(rows[j].emoji < self.emoji@.len());
            }
        }
        assert forall|j: int| 0 <= j < self.usage@.len() implies (#[trigger] self.usage@[j]).emoji
            < self.emoji@.len() by {}
    }

    /// Records the emoji that a message uses, unless a message with its id
    /// was recorded before. `server_id` is the server of the message's
    /// channel, where it is known.
    pub fn record_message(&mut self, message_id: u64, channel_id: u64, user_id: u64, server_id: Option<u64>, body: &str)
        requires
            old(self).wf(),
        ensures
            final(self).wf(),
            record_effect(*old(self), *final(self), message_id, channel_id, user_id, server_id, body@),
    {
        if self.message_exists(message_id) {
            return;
        }
        let ghost start = *self;
        let ghost rows = self.emoji@;
        let ghost total = uses_upto(rows, server_id, body@, rows.len() as int);
        let mut sum: u64 = 0;
        let mut i: usize = 0;
        while i < self.emoji.len()
            invariant
                i <= self.emoji@.len() == rows.len(),
                total == uses_upto(rows, server_id, body@, rows.len() as int),
                rows == start.emoji@,
                start == *old(self),
                !message_recorded(start.messages@, message_id),
                self.wf(),
                self.emoji@ == rows,
                self.emoji == start.emoji,
                self.channels == start.channels,
                self.users == start.users,
                self.messages == start.messages,
                self.reactions == start.reactions,
                start.usage_sum + total <= u64::MAX ==> {
                    &&& sum == uses_upto(rows, server_id, body@, i as int)
                    &&& self.usage_sum == start.usage_sum + sum
                    &&& forall|c: u64, u: u64, e: int| #[trigger] key_count(self.usage@, c, u, e)
                        == key_count(start.usage@, c, u, e) + if c == channel_id && u == user_id && 0 <= e < i {
                        uses_of(rows, server_id, body@, e) as int
                    } else {
                        0
                    }
                },
                sum == if uses_upto(rows, server_id, body@, i as int) <= u64::MAX {
                    uses_upto(rows, server_id, body@, i as int)
                } else {
                    u64::MAX as nat
                },
            decreases rows.len() - i,
        {
            let ghost before = *self;
            let counts = match &self.emoji[i].emoji {
                Emoji::Unicode(_) => true,
                Emoji::Custom(c) => self.emoji[i].is_active && match server_id {
                    Some(s) => s == c.server_id,
                    None => false,
                },
            };
            let uses: u64 = if counts {
                count_occurrences(body, self.emoji[i].emoji.pattern())
            } else {
                0
            };
            assert(uses == uses_of(rows, server_id, body@, i as int));
            proof {
                lemma_uses_upto_monotone(rows, server_id, body@, i + 1, rows.len() as int);
            }
            if uses > 0 {
                let applied = self.record_emoji_usage(channel_id, user_id, i, uses);
                proof {
                    if start.usage_sum + total <= u64::MAX {
                        assert(uses_upto(rows, server_id, body@, i + 1) == sum + uses);
                        assert(applied);
                    }
                }
            }
            sum = sum.saturating_add(uses);
            proof {
                if start.usage_sum + total <= u64::MAX {
                    assert forall|c: u64, u: u64, e: int| #[trigger] key_count(self.usage@, c, u, e)
                        == key_count(start.usage@, c, u, e) + if c == channel_id && u == user_id && 0 <= e < i + 1 {
                        uses_of(rows, server_id, body@, e) as int
                    } else {
                        0
                    } by {
                        assert(key_count(before.usage@, c, u, e) == key_count(start.usage@, c, u, e) + if c
                            == channel_id && u == user_id && 0 <= e < i {
                            uses_of(rows, server_id, body@, e) as int
                        } else {
                            0
                        });
                    }
                }
            }
            i = i + 1;
        }
        let count = sum;
        self.record_message_stats(message_id, channel_id, user_id, count);
    }
}

} // verus!
