//! The row store: channels, users and emoji, with per-message and
//! per-(channel, user, emoji) usage counts, and the ranking queries over them.

use vstd::prelude::*;
use crate::model::{CustomEmoji, Emoji};

verus! {

/// A row of the emoji table. Rows are never removed: an emoji that leaves its
/// server is marked inactive, so that the usage rows that name it stay valid.
pub struct EmojiRow {
    pub emoji: Emoji,
    pub is_active: bool,
}

pub struct ChannelRow {
    pub id: u64,
    pub server_id: u64,
    pub name: String,
}

pub struct UserRow {
    pub id: u64,
    pub name: String,
    pub discriminator: u16,
}

/// A count of uses of the emoji at index `emoji` of the emoji table, by one
/// user in one channel.
pub struct Tally {
    pub channel_id: u64,
    pub user_id: u64,
    pub emoji: usize,
    pub count: u64,
}

/// The record that a message was processed, with the number of emoji in it.
pub struct MessageRow {
    pub id: u64,
    pub channel_id: u64,
    pub user_id: u64,
    pub emoji_count: u64,
}

/// A user's reaction to a message with an emoji; present or absent.
pub struct ReactionRow {
    pub channel_id: u64,
    pub message_id: u64,
    pub user_id: u64,
    pub emoji: usize,
}

pub struct Database {
    pub emoji: Vec<EmojiRow>,
    pub channels: Vec<ChannelRow>,
    pub users: Vec<UserRow>,
    pub usage: Vec<Tally>,
    pub messages: Vec<MessageRow>,
    pub reactions: Vec<ReactionRow>,
    /// The sum of the counts of all usage rows.
    pub usage_sum: u64,
}

/// The sum of the counts of `rows`.
pub open spec fn sum_counts(rows: Seq<Tally>) -> int
    decreases rows.len(),
{
    if rows.len() == 0 {
        0
    } else {
        sum_counts(rows.drop_last()) + rows.last().count
    }
}

/// How often user `u` used emoji `e` in channel `c`, by `rows`.
pub open spec fn key_count(rows: Seq<Tally>, c: u64, u: u64, e: int) -> int
    decreases rows.len(),
{
    if rows.len() == 0 {
        0
    } else {
        key_count(rows.drop_last(), c, u, e) + if rows.last().channel_id == c
            && rows.last().user_id == u && rows.last().emoji == e {
            rows.last().count as int
        } else {
            0
        }
    }
}

/// `e` is the custom emoji with this id.
pub open spec fn is_custom_id(e: Emoji, id: u64) -> bool {
    e is Custom && e->Custom_0.id == id
}

/// `e` is the Unicode emoji with these glyphs.
pub open spec fn is_glyphs(e: Emoji, g: Seq<char>) -> bool {
    e is Unicode && e->Unicode_0@ == g
}

/// Two emoji are the same entity: custom ones by id, Unicode ones by glyphs.
pub open spec fn same_entity(a: Emoji, b: Emoji) -> bool {
    match a {
        Emoji::Custom(x) => is_custom_id(b, x.id),
        Emoji::Unicode(g) => is_glyphs(b, g@),
    }
}

/// No entity has two rows.
pub open spec fn unique_emoji(rows: Seq<EmojiRow>) -> bool {
    forall|i: int, j: int|
        0 <= i < rows.len() && 0 <= j < rows.len() && same_entity(#[trigger] rows[i].emoji, #[trigger] rows[j].emoji)
            ==> i == j
}

/// The index of the row of the custom emoji with this id, if there is one.
pub open spec fn custom_row(rows: Seq<EmojiRow>, id: u64) -> Option<int> {
    if exists|i: int| 0 <= i < rows.len() && is_custom_id(#[trigger] rows[i].emoji, id) {
        Some(choose|i: int| 0 <= i < rows.len() && is_custom_id(#[trigger] rows[i].emoji, id))
    } else {
        None
    }
}

/// `id` is the id of an emoji of `list`.
pub open spec fn listed(list: Seq<CustomEmoji>, id: u64) -> bool {
    exists|j: int| 0 <= j < list.len() && (#[trigger] list[j]).id == id
}

/// `e` is a custom emoji of server `server_id`.
pub open spec fn of_server(e: Emoji, server_id: u64) -> bool {
    e is Custom && e->Custom_0.server_id == server_id
}

/// The emoji table after the emoji `e` is added or, when a row of the same
/// entity exists, after that row is brought up to date and made active. A
/// Unicode emoji that has a row keeps it as it is.
pub open spec fn upserted(old: Seq<EmojiRow>, e: Emoji) -> Seq<EmojiRow> {
    let row = EmojiRow { emoji: e, is_active: true };
    match e {
        Emoji::Custom(c) => match custom_row(old, c.id) {
            Some(k) => old.update(k, row),
            None => old.push(row),
        },
        Emoji::Unicode(g) => if exists|i: int| 0 <= i < old.len() && is_glyphs(#[trigger] old[i].emoji, g@) {
            old
        } else {
            old.push(row)
        },
    }
}

/// Whether a row stays active when its server's list is reported: a custom
/// emoji of the server that the list leaves out becomes inactive.
pub open spec fn pruned_flag(row: EmojiRow, list: Seq<CustomEmoji>, server_id: u64) -> bool {
    row.is_active && !(of_server(row.emoji, server_id) && !listed(list, row.emoji->Custom_0.id))
}

/// The index of the last of the first `n` entries of `list` with this id, or
/// -1.
pub open spec fn last_with_id(list: Seq<CustomEmoji>, id: u64, n: int) -> int
    decreases n,
{
    if n <= 0 {
        -1
    } else if list[n - 1].id == id {
        n - 1
    } else {
        last_with_id(list, id, n - 1)
    }
}

/// The custom emoji with this id has an active row that holds the last of
/// the first `n` entries of the list with that id.
pub open spec fn listed_active_upto(rows: Seq<EmojiRow>, list: Seq<CustomEmoji>, id: u64, n: int) -> bool {
    &&& custom_row(rows, id) is Some
    &&& rows[custom_row(rows, id)->Some_0].is_active
    &&& rows[custom_row(rows, id)->Some_0].emoji == Emoji::Custom(list[last_with_id(list, id, n)])
}

/// The custom emoji with this id has an active row that holds the last entry
/// of the list with that id.
pub open spec fn listed_active(rows: Seq<EmojiRow>, list: Seq<CustomEmoji>, id: u64) -> bool {
    listed_active_upto(rows, list, id, list.len() as int)
}

/// Rows of `rows0` keep their entity and, unless the list names them, the
/// state they had in `rows1`; rows that were added hold emoji of the list.
pub open spec fn kept_and_grown(rows0: Seq<EmojiRow>, rows1: Seq<EmojiRow>, rows: Seq<EmojiRow>, list: Seq<CustomEmoji>) -> bool {
    &&& rows.len() >= rows0.len()
    &&& forall|m: int| 0 <= m < rows0.len() ==> #[trigger] same_entity(rows0[m].emoji, rows[m].emoji)
        && (!(rows0[m].emoji is Custom && listed(list, rows0[m].emoji->Custom_0.id)) ==> rows[m] == rows1[m])
    &&& forall|m: int| rows0.len() <= m < rows.len() ==> (#[trigger] rows[m]).emoji is Custom
        && listed(list, rows[m].emoji->Custom_0.id)
}

/// The emoji table `new` is `old` once a server reports its full list of
/// custom emoji.
#[verifier::opaque]
pub open spec fn reconciled(old: Seq<EmojiRow>, new: Seq<EmojiRow>, list: Seq<CustomEmoji>, server_id: u64) -> bool {
    &&& new.len() >= old.len()
    &&& forall|m: int| 0 <= m < old.len() ==> #[trigger] same_entity(old[m].emoji, new[m].emoji)
    &&& forall|m: int| 0 <= m < old.len() && !(old[m].emoji is Custom && listed(list, old[m].emoji->Custom_0.id))
        ==> (#[trigger] new[m]).emoji == old[m].emoji && new[m].is_active == pruned_flag(old[m], list, server_id)
    &&& forall|m: int| old.len() <= m < new.len() ==> (#[trigger] new[m]).emoji is Custom
        && listed(list, new[m].emoji->Custom_0.id)
    &&& forall|j: int| 0 <= j < list.len() ==> listed_active(new, list, (#[trigger] list[j]).id)
}

/// A server reports its custom emoji `[a, b]` and later `[b, c]`: then `a`
/// is kept but inactive, `b` and `c` are active, and the usage rows, which
/// reconciling never touches, are those from before.
pub proof fn lemma_reconcile_two_reports(
    d0: Database,
    d1: Database,
    d2: Database,
    a: CustomEmoji,
    b: CustomEmoji,
    c: CustomEmoji,
    server_id: u64,
)
    requires
        unique_emoji(d2.emoji@),
        a.server_id == server_id,
        a.id != b.id,
        a.id != c.id,
        reconciled(d0.emoji@, d1.emoji@, seq![a, b], server_id),
        d1.usage == d0.usage,
        reconciled(d1.emoji@, d2.emoji@, seq![b, c], server_id),
        d2.usage == d1.usage,
    ensures
        custom_row(d2.emoji@, a.id) is Some,
        !d2.emoji@[custom_row(d2.emoji@, a.id)->Some_0].is_active,
        listed_active(d2.emoji@, seq![b, c], b.id),
        listed_active(d2.emoji@, seq![b, c], c.id),
        d2.usage@ == d0.usage@,
{
    lemma_reconcile_rows(d0.emoji@, d1.emoji@, d2.emoji@, a, b, c, server_id);
    assert(seq![b, c][0] == b && seq![b, c][1] == c);
    lemma_reconciled_listed(d1.emoji@, d2.emoji@, seq![b, c], server_id, 0);
    lemma_reconciled_listed(d1.emoji@, d2.emoji@, seq![b, c], server_id, 1);
}

proof fn lemma_reconciled_listed(s0: Seq<EmojiRow>, s1: Seq<EmojiRow>, list: Seq<CustomEmoji>, server_id: u64, j: int)
    requires
        reconciled(s0, s1, list, server_id),
        0 <= j < list.len(),
    ensures
        listed_active(s1, list, list[j].id),
{
    reveal(reconciled);
}

proof fn lemma_reconciled_unlisted(s0: Seq<EmojiRow>, s1: Seq<EmojiRow>, list: Seq<CustomEmoji>, server_id: u64, m: int)
    requires
        reconciled(s0, s1, list, server_id),
        0 <= m < s0.len(),
        !(s0[m].emoji is Custom && listed(list, s0[m].emoji->Custom_0.id)),
    ensures
        s1.len() >= s0.len(),
        s1[m].emoji == s0[m].emoji,
        s1[m].is_active == pruned_flag(s0[m], list, server_id),
{
    reveal(reconciled);
}

proof fn lemma_reconcile_rows(
    s0: Seq<EmojiRow>,
    s1: Seq<EmojiRow>,
    s2: Seq<EmojiRow>,
    a: CustomEmoji,
    b: CustomEmoji,
    c: CustomEmoji,
    server_id: u64,
)
    requires
        unique_emoji(s2),
        a.server_id == server_id,
        a.id != b.id,
        a.id != c.id,
        reconciled(s0, s1, seq![a, b], server_id),
        reconciled(s1, s2, seq![b, c], server_id),
    ensures
        custom_row(s2, a.id) is Some,
        !s2[custom_row(s2, a.id)->Some_0].is_active,
{
    let l1 = seq![a, b];
    let l2 = seq![b, c];
    assert(l1[0] == a);
    assert(l2.len() == 2 && l2[0] == b && l2[1] == c);
    lemma_reconciled_listed(s0, s1, l1, server_id, 0);
    let k = custom_row(s1, a.id)->Some_0;
    assert(last_with_id(l1, a.id, 1) == 0);
    assert(last_with_id(l1, a.id, 2) == 0);
    assert(!listed(l2, a.id)) by {
        if listed(l2, a.id) {
            let m = choose|m: int| 0 <= m < l2.len() && (#[trigger] l2[m]).id == a.id;
            assert(m == 0 || m == 1);
        }
    }
    lemma_reconciled_unlisted(s1, s2, l2, server_id, k);
    lemma_custom_row_is(s2, a.id, k);
}

/// Reporting the same list twice leaves the emoji table as the first report
/// left it.
pub proof fn lemma_reconcile_idempotent(
    s0: Seq<EmojiRow>,
    s1: Seq<EmojiRow>,
    s2: Seq<EmojiRow>,
    list: Seq<CustomEmoji>,
    server_id: u64,
)
    requires
        unique_emoji(s1),
        unique_emoji(s2),
        reconciled(s0, s1, list, server_id),
        reconciled(s1, s2, list, server_id),
    ensures
        s2 == s1,
{
    reveal(reconciled);
    assert forall|m: int| 0 <= m < s1.len() implies #[trigger] s2[m] == s1[m] by {
        assert(same_entity(s1[m].emoji, s2[m].emoji));
        if s1[m].emoji is Custom && listed(list, s1[m].emoji->Custom_0.id) {
            let id = s1[m].emoji->Custom_0.id;
            let j = choose|j: int| 0 <= j < list.len() && (#[trigger] list[j]).id == id;
            assert(listed_active(s1, list, list[j].id));
            assert(listed_active(s2, list, list[j].id));
            lemma_custom_row_is(s1, id, m);
            lemma_custom_row_is(s2, id, m);
        } else {
            assert(s2[m].emoji == s1[m].emoji);
            if m < s0.len() {
                assert(same_entity(s0[m].emoji, s1[m].emoji));
                assert(s1[m].emoji == s0[m].emoji);
            }
        }
    }
    if s2.len() > s1.len() {
        let m = s1.len() as int;
        let id = s2[m].emoji->Custom_0.id;
        let j = choose|j: int| 0 <= j < list.len() && (#[trigger] list[j]).id == id;
        assert(listed_active(s1, list, list[j].id));
        let k = custom_row(s1, id)->Some_0;
        assert(same_entity(s1[k].emoji, s2[k].emoji));
        assert(same_entity(s2[k].emoji, s2[m].emoji));
    }
    assert(s2 =~= s1);
}

/// Whether `list` holds an emoji with this id.
fn list_has(list: &Vec<CustomEmoji>, id: u64) -> (r: bool)
    ensures
        r == listed(list@, id),
{
    let mut i: usize = 0;
    while i < list.len()
        invariant
            i <= list@.len(),
            forall|j: int| 0 <= j < i ==> (#[trigger] list@[j]).id != id,
        decreases list@.len() - i,
    {
        if list[i].id == id {
            return true;
        }
        i = i + 1;
    }
    false
}

/// With one row per entity, the row found for an id is the row of that id.
pub proof fn lemma_custom_row_is(rows: Seq<EmojiRow>, id: u64, k: int)
    requires
        unique_emoji(rows),
        0 <= k < rows.len(),
        is_custom_id(rows[k as int].emoji, id),
    ensures
        custom_row(rows, id) == Some(k),
{
    let i = choose|i: int| 0 <= i < rows.len() && is_custom_id(#[trigger] rows[i].emoji, id);
    assert(same_entity(rows[i].emoji, rows[k as int].emoji));
}

/// The index of the first channel row with this id at or after `k`, or -1.
pub open spec fn channel_row(chs: Seq<ChannelRow>, id: u64, k: int) -> int
    decreases chs.len() - k,
{
    if k < 0 || k >= chs.len() {
        -1
    } else if chs[k].id == id {
        k
    } else {
        channel_row(chs, id, k + 1)
    }
}

/// The index of the first user row with this id at or after `k`, or -1.
pub open spec fn user_row(users: Seq<UserRow>, id: u64, k: int) -> int
    decreases users.len() - k,
{
    if k < 0 || k >= users.len() {
        -1
    } else if users[k].id == id {
        k
    } else {
        user_row(users, id, k + 1)
    }
}

/// At most one row per message id: the row marks the message as recorded.
pub open spec fn unique_messages(rows: Seq<MessageRow>) -> bool {
    forall|i: int, j: int|
        0 <= i < rows.len() && 0 <= j < rows.len() && #[trigger] rows[i].id == #[trigger] rows[j].id ==> i == j
}

pub open spec fn message_recorded(rows: Seq<MessageRow>, id: u64) -> bool {
    exists|i: int| 0 <= i < rows.len() && (#[trigger] rows[i]).id == id
}

pub open spec fn reaction_recorded(rows: Seq<ReactionRow>, r: ReactionRow) -> bool {
    exists|i: int| 0 <= i < rows.len() && #[trigger] rows[i] == r
}

proof fn lemma_key_count_le_sum(rows: Seq<Tally>, c: u64, u: u64, e: int)
    ensures
        0 <= key_count(rows, c, u, e) <= sum_counts(rows),
    decreases rows.len(),
{
    if rows.len() > 0 {
        lemma_key_count_le_sum(rows.drop_last(), c, u, e);
    }
}

/// Replacing row `i` by one with the same key and count `n.count` changes the
/// sums by the difference.
proof fn lemma_update_count(rows: Seq<Tally>, i: int, n: Tally)
    requires
        0 <= i < rows.len(),
        n.channel_id == rows[i].channel_id,
        n.user_id == rows[i].user_id,
        n.emoji == rows[i].emoji,
    ensures
        sum_counts(rows.update(i, n)) == sum_counts(rows) - rows[i].count + n.count,
        forall|c: u64, u: u64, e: int| #[trigger] key_count(rows.update(i, n), c, u, e)
            == key_count(rows, c, u, e) + if n.channel_id == c && n.user_id == u && n.emoji == e {
                n.count - rows[i].count
            } else {
                0
            },
    decreases rows.len(),
{
    let r2 = rows.update(i, n);
    if i == rows.len() - 1 {
        assert(r2.drop_last() =~= rows.drop_last());
        assert(r2.last() == n);
    } else {
        lemma_update_count(rows.drop_last(), i, n);
        assert(r2.drop_last() =~= rows.drop_last().update(i, n));
        assert(r2.last() == rows.last());
    }
    assert forall|c: u64, u: u64, e: int| #[trigger] key_count(r2, c, u, e)
        == key_count(rows, c, u, e) + if n.channel_id == c && n.user_id == u && n.emoji == e {
            n.count - rows[i].count
        } else {
            0
        } by {
        assert(key_count(r2, c, u, e) == key_count(r2.drop_last(), c, u, e) + if r2.last().channel_id == c
            && r2.last().user_id == u && r2.last().emoji == e {
            r2.last().count as int
        } else {
            0
        });
    }
}

proof fn lemma_row_le_sum(rows: Seq<Tally>, i: int)
    requires
        0 <= i < rows.len(),
    ensures
        rows[i].count <= sum_counts(rows),
    decreases rows.len(),
{
    if i < rows.len() - 1 {
        lemma_row_le_sum(rows.drop_last(), i);
        assert(rows.drop_last()[i] == rows[i]);
    } else {
        lemma_key_count_le_sum(rows.drop_last(), 0, 0, 0);
    }
}

proof fn lemma_push_count(rows: Seq<Tally>, t: Tally)
    ensures
        sum_counts(rows.push(t)) == sum_counts(rows) + t.count,
        forall|c: u64, u: u64, e: int| #[trigger] key_count(rows.push(t), c, u, e)
            == key_count(rows, c, u, e) + if t.channel_id == c && t.user_id == u && t.emoji == e {
                t.count as int
            } else {
                0
            },
{
    assert(rows.push(t).drop_last() =~= rows);
}

impl Database {
    pub open spec fn wf(&self) -> bool {
        &&& self.usage_sum == sum_counts(self.usage@)
        &&& forall|i: int| 0 <= i < self.usage@.len() ==> (#[trigger] self.usage@[i]).emoji < self.emoji@.len()
        &&& forall|i: int| 0 <= i < self.reactions@.len() ==> (#[trigger] self.reactions@[i]).emoji < self.emoji@.len()
        &&& forall|i: int| 0 <= i < self.emoji@.len() ==> (#[trigger] self.emoji@[i]).emoji.wf()
        &&& unique_emoji(self.emoji@)
        &&& unique_messages(self.messages@)
    }

    /// An empty store.
    pub fn new() -> (r: Database)
        ensures
            r.wf(),
            r.emoji@.len() == 0,
            r.channels@.len() == 0,
            r.users@.len() == 0,
            r.usage@.len() == 0,
            r.messages@.len() == 0,
            r.reactions@.len() == 0,
    {
        Database {
            emoji: Vec::new(),
            channels: Vec::new(),
            users: Vec::new(),
            usage: Vec::new(),
            messages: Vec::new(),
            reactions: Vec::new(),
            usage_sum: 0,
        }
    }

    /// Whether a message with this id has been recorded.
    pub fn message_exists(&self, message_id: u64) -> (r: bool)
        ensures
            r == message_recorded(self.messages@, message_id),
    {
        let mut i: usize = 0;
        while i < self.messages.len()
            invariant
                i <= self.messages@.len(),
                forall|j: int| 0 <= j < i ==> (#[trigger] self.messages@[j]).id != message_id,
            decreases self.messages@.len() - i,
        {
            if self.messages[i].id == message_id {
                return true;
            }
            i = i + 1;
        }
        false
    }

    /// Records that a message was processed, with the number of emoji in it.
    /// A message that was recorded before keeps its row, and false is
    /// returned.
    pub fn record_message_stats(&mut self, message_id: u64, channel_id: u64, user_id: u64, emoji_count: u64) -> (r: bool)
        requires
            old(self).wf(),
        ensures
            final(self).wf(),
            r == !message_recorded(old(self).messages@, message_id),
            final(self).messages@ == if r {
                old(self).messages@.push(MessageRow { id: message_id, channel_id, user_id, emoji_count })
            } else {
                old(self).messages@
            },
            final(self).emoji == old(self).emoji,
            final(self).channels == old(self).channels,
            final(self).users == old(self).users,
            final(self).usage == old(self).usage,
            final(self).reactions == old(self).reactions,
            final(self).usage_sum == old(self).usage_sum,
    {
        if self.message_exists(message_id) {
            return false;
        }
        let ghost rows = self.messages@;
        self.messages.push(MessageRow { id: message_id, channel_id, user_id, emoji_count });
        assert forall|i: int, j: int|
            0 <= i < self.messages@.len() && 0 <= j < self.messages@.len() && #[trigger] self.messages@[i].id
                == #[trigger] self.messages@[j].id implies i == j by {
            let n = rows.len() as int;
            if i < n && j < n {
                assert(rows[i].id == rows[j].id);
            } else if i < n {
                assert(rows[i].id == message_id);
            } else if j < n {
                assert(rows[j].id == message_id);
            }
        }
        assert forall|i: int| 0 <= i < self.usage@.len() implies (#[trigger] self.usage@[i]).emoji
            < self.emoji@.len() by {}
        true
    }

    /// Adds `count` uses of the emoji at `emoji` by `user_id` in `channel_id`.
    /// Returns false, and changes nothing, where the store's total would
    /// overflow.
    pub fn record_emoji_usage(&mut self, channel_id: u64, user_id: u64, emoji: usize, count: u64) -> (r: bool)
        requires
            old(self).wf(),
            emoji < old(self).emoji@.len(),
        ensures
            final(self).wf(),
            r == (old(self).usage_sum + count <= u64::MAX),
            forall|c: u64, u: u64, e: int| #[trigger] key_count(final(self).usage@, c, u, e)
                == key_count(old(self).usage@, c, u, e) + if r && c == channel_id && u == user_id && e == emoji {
                    count as int
                } else {
                    0
                },
            final(self).usage_sum == old(self).usage_sum + if r { count as int } else { 0 },
            final(self).emoji == old(self).emoji,
            final(self).channels == old(self).channels,
            final(self).users == old(self).users,
            final(self).messages == old(self).messages,
            final(self).reactions == old(self).reactions,
    {
        if count > u64::MAX - self.usage_sum {
            return false;
        }
        proof {
            lemma_key_count_le_sum(self.usage@, channel_id, user_id, emoji as int);
        }
        let mut i: usize = 0;
        while i < self.usage.len()
            invariant
                i <= self.usage@.len(),
                self.wf(),
                emoji < self.emoji@.len(),
                count <= u64::MAX - self.usage_sum,
                *self == *old(self),
                forall|j: int| 0 <= j < i ==> !((#[trigger] self.usage@[j]).channel_id == channel_id
                    && self.usage@[j].user_id == user_id && self.usage@[j].emoji == emoji),
            decreases self.usage@.len() - i,
        {
            let t = &self.usage[i];
            if t.channel_id == channel_id && t.user_id == user_id && t.emoji == emoji {
                let ghost old_rows = self.usage@;
                proof {
                    lemma_row_le_sum(old_rows, i as int);
                }
                let v = t.count + count;
                let n = Tally { channel_id, user_id, emoji, count: v };
                proof {
                    lemma_update_count(old_rows, i as int, n);
                }
                self.usage.set(i, n);
                self.usage_sum = self.usage_sum + count;
                assert forall|j: int| 0 <= j < self.usage@.len() implies (#[trigger] self.usage@[j]).emoji
                    < self.emoji@.len() by {
                    assert(old_rows[j].emoji < self.emoji@.len());
                }
                return true;
            }
            i = i + 1;
        }
        let ghost old_rows = self.usage@;
        let t = Tally { channel_id, user_id, emoji, count };
        proof {
            lemma_push_count(old_rows, t);
        }
        self.usage.push(t);
        self.usage_sum = self.usage_sum + count;
        assert forall|j: int| 0 <= j < self.usage@.len() implies (#[trigger] self.usage@[j]).emoji
            < self.emoji@.len() by {
            if j < old_rows.len() {
                assert(old_rows[j].emoji < self.emoji@.len());
            }
        }
        true
    }

    /// The row of the custom emoji with this id.
    pub fn find_custom_emoji(&self, id: u64) -> (r: Option<usize>)
        ensures
            match r {
                Some(i) => i < self.emoji@.len() && is_custom_id(self.emoji@[i as int].emoji, id),
                None => custom_row(self.emoji@, id) is None,
            },
    {
        let mut i: usize = 0;
        while i < self.emoji.len()
            invariant
                i <= self.emoji@.len(),
                forall|j: int| 0 <= j < i ==> !is_custom_id(#[trigger] self.emoji@[j].emoji, id),
            decreases self.emoji@.len() - i,
        {
            match &self.emoji[i].emoji {
                Emoji::Custom(c) => {
                    if c.id == id {
                        return Some(i);
                    }
                },
                Emoji::Unicode(_) => {},
            }
            i = i + 1;
        }
        None
    }

    /// Adds an emoji to the emoji table, or brings its row up to date and
    /// marks it active.
    pub fn add_emoji(&mut self, emoji: Emoji)
        requires
            old(self).wf(),
            emoji.wf(),
        ensures
            final(self).wf(),
            final(self).emoji@ == upserted(old(self).emoji@, emoji),
            final(self).channels == old(self).channels,
            final(self).users == old(self).users,
            final(self).usage == old(self).usage,
            final(self).messages == old(self).messages,
            final(self).reactions == old(self).reactions,
            final(self).usage_sum == old(self).usage_sum,
    {
        let ghost rows = self.emoji@;
        let ghost row = EmojiRow { emoji, is_active: true };
        let found = match &emoji {
            Emoji::Custom(c) => self.find_custom_emoji(c.id),
            Emoji::Unicode(g) => self.get_emoji_id(g.as_str()),
        };
        match found {
            Some(k) => {
                if let Emoji::Unicode(_) = &emoji {
                    return;
                }
                proof {
                    lemma_custom_row_is(rows, emoji->Custom_0.id, k as int);
                }
                self.emoji.set(k, EmojiRow { emoji, is_active: true });
                assert forall|i: int, j: int|
                    0 <= i < self.emoji@.len() && 0 <= j < self.emoji@.len() && same_entity(
                        #[trigger] self.emoji@[i].emoji,
                        #[trigger] self.emoji@[j].emoji,
                    ) implies i == j by {
                    if i != k && j != k {
                        assert(same_entity(rows[i].emoji, rows[j].emoji));
                    } else if i == k && j != k {
                        assert(same_entity(rows[k as int].emoji, rows[j].emoji));
                    } else if j == k && i != k {
                        assert(same_entity(rows[i].emoji, rows[k as int].emoji));
                    }
                }
                assert forall|i: int| 0 <= i < self.usage@.len() implies (#[trigger] self.usage@[i]).emoji
                    < self.emoji@.len() by {}
            },
            None => {
                self.emoji.push(EmojiRow { emoji, is_active: true });
                assert forall|i: int, j: int|
                    0 <= i < self.emoji@.len() && 0 <= j < self.emoji@.len() && same_entity(
                        #[trigger] self.emoji@[i].emoji,
                        #[trigger] self.emoji@[j].emoji,
                    ) implies i == j by {
                    let n = rows.len() as int;
                    if i < n && j < n {
                        assert(same_entity(rows[i].emoji, rows[j].emoji));
                    } else if i == n && j < n {
                        assert(same_entity(emoji, rows[j].emoji));
                    } else if j == n && i < n {
                        assert(same_entity(rows[i].emoji, emoji));
                    }
                }
                assert forall|i: int| 0 <= i < self.usage@.len() implies (#[trigger] self.usage@[i]).emoji
                    < self.emoji@.len() by {}
                assert forall|i: int| 0 <= i < self.reactions@.len() implies (#[trigger] self.reactions@[i]).emoji
                    < self.emoji@.len() by {}
            },
        }
    }

    /// Brings the custom emoji of a server in line with the full list that
    /// was reported for it: each emoji of the list is added, or brought up to
    /// date and made active; each other custom emoji of the server is marked
    /// inactive. No row is removed and no usage is touched.
    pub fn update_server_emoji_list(&mut self, emoji_list: &Vec<CustomEmoji>, server_id: u64)
        requires
            old(self).wf(),
            forall|j: int| 0 <= j < emoji_list@.len() ==> (#[trigger] emoji_list@[j]).wf(),
        ensures
            final(self).wf(),
            reconciled(old(self).emoji@, final(self).emoji@, emoji_list@, server_id),
            final(self).channels == old(self).channels,
            final(self).users == old(self).users,
            final(self).usage == old(self).usage,
            final(self).messages == old(self).messages,
            final(self).reactions == old(self).reactions,
            final(self).usage_sum == old(self).usage_sum,
    {
        let ghost rows0 = self.emoji@;
        let mut i: usize = 0;
        while i < self.emoji.len()
            invariant
                i <= self.emoji@.len() == rows0.len(),
                self.wf(),
                forall|j: int| 0 <= j < emoji_list@.len() ==> (#[trigger] emoji_list@[j]).wf(),
                forall|j: int| 0 <= j < rows0.len() ==> (#[trigger] self.emoji@[j]).emoji == rows0[j].emoji,
                forall|j: int| 0 <= j < i ==> (#[trigger] self.emoji@[j]).is_active == pruned_flag(rows0[j], emoji_list@, server_id),
                forall|j: int| i <= j < rows0.len() ==> (#[trigger] self.emoji@[j]).is_active == rows0[j].is_active,
                self.channels == old(self).channels,
                self.users == old(self).users,
                self.usage == old(self).usage,
                self.messages == old(self).messages,
                self.reactions == old(self).reactions,
                self.usage_sum == old(self).usage_sum,
            decreases rows0.len() - i,
        {
            let prune = match &self.emoji[i].emoji {
                Emoji::Custom(c) => c.server_id == server_id && !list_has(emoji_list, c.id),
                Emoji::Unicode(_) => false,
            };
            if prune && self.emoji[i].is_active {
                let ghost before = self.emoji@;
                let e = self.emoji[i].emoji.clone();
                self.emoji.set(i, EmojiRow { emoji: e, is_active: false });
                assert forall|a: int, b: int|
                    0 <= a < self.emoji@.len() && 0 <= b < self.emoji@.len() && same_entity(
                        #[trigger] self.emoji@[a].emoji,
                        #[trigger] self.emoji@[b].emoji,
                    ) implies a == b by {
                    assert(same_entity(before[a].emoji, before[b].emoji));
                }
                assert forall|a: int| 0 <= a < self.usage@.len() implies (#[trigger] self.usage@[a]).emoji
                    < self.emoji@.len() by {}
            }
            i = i + 1;
        }
        let ghost rows1 = self.emoji@;
        let mut j: usize = 0;
        while j < emoji_list.len()
            invariant
                j <= emoji_list@.len(),
                self.wf(),
                forall|k: int| 0 <= k < emoji_list@.len() ==> (#[trigger] emoji_list@[k]).wf(),
                rows1.len() == rows0.len(),
                forall|k: int| 0 <= k < rows0.len() ==> (#[trigger] rows1[k]).emoji == rows0[k].emoji,
                forall|k: int| 0 <= k < rows0.len() ==> (#[trigger] rows1[k]).is_active == pruned_flag(rows0[k], emoji_list@, server_id),
                kept_and_grown(rows0, rows1, self.emoji@, emoji_list@),
                forall|k: int| 0 <= k < j ==> listed_active_upto(self.emoji@, emoji_list@, (#[trigger] emoji_list@[k]).id, j as int),
                self.channels == old(self).channels,
                self.users == old(self).users,
                self.usage == old(self).usage,
                self.messages == old(self).messages,
                self.reactions == old(self).reactions,
                self.usage_sum == old(self).usage_sum,
            decreases emoji_list@.len() - j,
        {
            let ghost before = self.emoji@;
            let c = emoji_list[j].clone();
            let ghost id = c.id;
            self.add_emoji(Emoji::Custom(c));
            proof {
                let after = self.emoji@;
                let row = EmojiRow { emoji: Emoji::Custom(c), is_active: true };
                let k = match custom_row(before, id) {
                    Some(k) => k,
                    None => before.len() as int,
                };
                assert(after[k] == row);
                assert(0 <= j < emoji_list@.len() && emoji_list@[j as int].id == id);
                assert(listed(emoji_list@, id));
                lemma_custom_row_is(after, id, k);
                assert forall|m: int| 0 <= m < j + 1 implies listed_active_upto(after, emoji_list@, (#[trigger] emoji_list@[m]).id, j + 1) by {
                    let idm = emoji_list@[m].id;
                    if idm != id {
                        assert(listed_active_upto(before, emoji_list@, idm, j as int));
                        assert(last_with_id(emoji_list@, idm, j + 1) == last_with_id(emoji_list@, idm, j as int));
                        let km = custom_row(before, idm)->Some_0;
                        assert(km != k);
                        assert(after[km] == before[km]);
                        lemma_custom_row_is(after, idm, km);
                    } else {
                        assert(last_with_id(emoji_list@, id, j + 1) == j);
                    }
                }
                assert forall|m: int| 0 <= m < rows0.len() implies #[trigger] same_entity(rows0[m].emoji, after[m].emoji)
                    && (!(rows0[m].emoji is Custom && listed(emoji_list@, rows0[m].emoji->Custom_0.id)) ==> after[m] == rows1[m]) by {
                    assert(same_entity(rows0[m].emoji, before[m].emoji));
                    if m == k {
                        assert(same_entity(before[m].emoji, Emoji::Custom(c)));
                    }
                }
                assert forall|m: int| rows0.len() <= m < after.len() implies (#[trigger] after[m]).emoji is Custom
                    && listed(emoji_list@, after[m].emoji->Custom_0.id) by {
                    if m < before.len() {
                        assert(before[m].emoji is Custom && listed(emoji_list@, before[m].emoji->Custom_0.id));
                    }
                }
            }
            j = j + 1;
        }
        assert forall|m: int| 0 <= m < rows0.len() && !(rows0[m].emoji is Custom && listed(emoji_list@, rows0[m].emoji->Custom_0.id))
            implies (#[trigger] self.emoji@[m]).emoji == rows0[m].emoji && self.emoji@[m].is_active == pruned_flag(rows0[m], emoji_list@, server_id) by {
            assert(same_entity(rows0[m].emoji, self.emoji@[m].emoji));
            assert(rows1[m].emoji == rows0[m].emoji);
        }
        assert forall|m: int| 0 <= m < rows0.len() implies #[trigger] same_entity(rows0[m].emoji, self.emoji@[m].emoji) by {}
        reveal(reconciled);
    }

    /// The row of the Unicode emoji with these glyphs.
    pub fn get_emoji_id(&self, glyphs: &str) -> (r: Option<usize>)
        ensures
            match r {
                Some(i) => i < self.emoji@.len() && is_glyphs(self.emoji@[i as int].emoji, glyphs@),
                None => forall|j: int| 0 <= j < self.emoji@.len() ==> !is_glyphs(#[trigger] self.emoji@[j].emoji, glyphs@),
            },
    {
        let mut i: usize = 0;
        while i < self.emoji.len()
            invariant
                i <= self.emoji@.len(),
                forall|j: int| 0 <= j < i ==> !is_glyphs(#[trigger] self.emoji@[j].emoji, glyphs@),
            decreases self.emoji@.len() - i,
        {
            match &self.emoji[i].emoji {
                Emoji::Custom(_) => {},
                Emoji::Unicode(g) => {
                    if str_eq(g.as_str(), glyphs) {
                        return Some(i);
                    }
                },
            }
            i = i + 1;
        }
        None
    }

    /// Adds a server channel, or renames the channel of that id.
    pub fn add_channel(&mut self, channel_id: u64, server_id: u64, name: String)
        ensures
            final(self).channels@ == if channel_row(old(self).channels@, channel_id, 0) >= 0 {
                old(self).channels@.update(
                    channel_row(old(self).channels@, channel_id, 0),
                    ChannelRow { name, ..old(self).channels@[channel_row(old(self).channels@, channel_id, 0)] },
                )
            } else {
                old(self).channels@.push(ChannelRow { id: channel_id, server_id, name })
            },
            final(self).emoji == old(self).emoji,
            final(self).users == old(self).users,
            final(self).usage == old(self).usage,
            final(self).messages == old(self).messages,
            final(self).reactions == old(self).reactions,
            final(self).usage_sum == old(self).usage_sum,
    {
        let mut i: usize = 0;
        while i < self.channels.len()
            invariant
                i <= self.channels@.len(),
                *self == *old(self),
                channel_row(self.channels@, channel_id, 0) == channel_row(self.channels@, channel_id, i as int),
            decreases self.channels@.len() - i,
        {
            if self.channels[i].id == channel_id {
                let old_server = self.channels[i].server_id;
                self.channels.set(i, ChannelRow { id: channel_id, server_id: old_server, name });
                return;
            }
            i = i + 1;
        }
        self.channels.push(ChannelRow { id: channel_id, server_id, name });
    }

    /// Adds a user, or brings the name and discriminator of that id up to
    /// date.
    pub fn add_user(&mut self, user_id: u64, name: String, discriminator: u16)
        ensures
            final(self).users@ == if user_row(old(self).users@, user_id, 0) >= 0 {
                old(self).users@.update(user_row(old(self).users@, user_id, 0), UserRow { id: user_id, name, discriminator })
            } else {
                old(self).users@.push(UserRow { id: user_id, name, discriminator })
            },
            final(self).emoji == old(self).emoji,
            final(self).channels == old(self).channels,
            final(self).usage == old(self).usage,
            final(self).messages == old(self).messages,
            final(self).reactions == old(self).reactions,
            final(self).usage_sum == old(self).usage_sum,
    {
        let mut i: usize = 0;
        while i < self.users.len()
            invariant
                i <= self.users@.len(),
                *self == *old(self),
                user_row(self.users@, user_id, 0) == user_row(self.users@, user_id, i as int),
            decreases self.users@.len() - i,
        {
            if self.users[i].id == user_id {
                self.users.set(i, UserRow { id: user_id, name, discriminator });
                return;
            }
            i = i + 1;
        }
        self.users.push(UserRow { id: user_id, name, discriminator });
    }

    /// The name of a user.
    pub fn get_user_name(&self, user_id: u64) -> (r: Option<String>)
        ensures
            match r {
                Some(n) => user_row(self.users@, user_id, 0) >= 0 && n@ == self.users@[user_row(self.users@, user_id, 0)].name@,
                None => user_row(self.users@, user_id, 0) == -1,
            },
    {
        let mut i: usize = 0;
        while i < self.users.len()
            invariant
                i <= self.users@.len(),
                user_row(self.users@, user_id, 0) == user_row(self.users@, user_id, i as int),
            decreases self.users@.len() - i,
        {
            if self.users[i].id == user_id {
                return Some(self.users[i].name.clone());
            }
            i = i + 1;
        }
        None
    }

    /// How often user `user_id` used the emoji of row `emoji` in channel
    /// `channel_id`.
    pub fn use_count(&self, channel_id: u64, user_id: u64, emoji: usize) -> (r: u64)
        requires
            self.wf(),
        ensures
            r == key_count(self.usage@, channel_id, user_id, emoji as int),
    {
        let mut total: u64 = 0;
        let mut i: usize = 0;
        while i < self.usage.len()
            invariant
                i <= self.usage@.len(),
                self.wf(),
                total == key_count(self.usage@.subrange(0, i as int), channel_id, user_id, emoji as int),
            decreases self.usage@.len() - i,
        {
            let ghost next = self.usage@.subrange(0, i + 1);
            assert(next.drop_last() =~= self.usage@.subrange(0, i as int));
            let t = &self.usage[i];
            if t.channel_id == channel_id && t.user_id == user_id && t.emoji == emoji {
                proof {
                    lemma_key_count_le_sum(next, channel_id, user_id, emoji as int);
                    lemma_sum_prefix_le(self.usage@, i + 1);
                }
                total = total + t.count;
            }
            i = i + 1;
        }
        assert(self.usage@.subrange(0, i as int) =~= self.usage@);
        total
    }

    /// The number of emoji of the first recorded message with this id.
    pub fn message_emoji_count(&self, message_id: u64) -> (r: Option<u64>)
        ensures
            match r {
                Some(n) => exists|i: int| 0 <= i < self.messages@.len() && (#[trigger] self.messages@[i]).id == message_id
                    && self.messages@[i].emoji_count == n,
                None => !message_recorded(self.messages@, message_id),
            },
    {
        let mut i: usize = 0;
        while i < self.messages.len()
            invariant
                i <= self.messages@.len(),
                forall|j: int| 0 <= j < i ==> (#[trigger] self.messages@[j]).id != message_id,
            decreases self.messages@.len() - i,
        {
            if self.messages[i].id == message_id {
                return Some(self.messages[i].emoji_count);
            }
            i = i + 1;
        }
        None
    }

    /// The row of the emoji whose pattern is `pattern`.
    pub fn find_emoji_by_pattern(&self, pattern: &str) -> (r: Option<usize>)
        ensures
            match r {
                Some(i) => i < self.emoji@.len() && self.emoji@[i as int].emoji.pattern_view() == pattern@,
                None => forall|j: int| 0 <= j < self.emoji@.len() ==> (#[trigger] self.emoji@[j]).emoji.pattern_view() != pattern@,
            },
    {
        let mut i: usize = 0;
        while i < self.emoji.len()
            invariant
                i <= self.emoji@.len(),
                forall|j: int| 0 <= j < i ==> (#[trigger] self.emoji@[j]).emoji.pattern_view() != pattern@,
            decreases self.emoji@.len() - i,
        {
            if str_eq(self.emoji[i].emoji.pattern(), pattern) {
                return Some(i);
            }
            i = i + 1;
        }
        None
    }
}

pub proof fn lemma_sum_prefix_le(rows: Seq<Tally>, i: int)
    requires
        0 <= i <= rows.len(),
    ensures
        sum_counts(rows.subrange(0, i)) <= sum_counts(rows),
    decreases rows.len() - i,
{
    if i < rows.len() {
        lemma_sum_prefix_le(rows, i + 1);
        assert(rows.subrange(0, i + 1).drop_last() =~= rows.subrange(0, i));
        lemma_key_count_le_sum(rows.subrange(0, i), 0, 0, 0);
    } else {
        assert(rows.subrange(0, i) =~= rows);
    }
}

/// Whether two strings hold the same characters.
pub fn str_eq(a: &str, b: &str) -> (r: bool)
    ensures
        r == (a@ == b@),
{
    let n = a.unicode_len();
    if n != b.unicode_len() {
        return false;
    }
    let mut i: usize = 0;
    while i < n
        invariant
            i <= n == a@.len() == b@.len(),
            forall|j: int| 0 <= j < i ==> a@[j] == b@[j],
        decreases n - i,
    {
        if a.get_char(i) != b.get_char(i) {
            return false;
        }
        i = i + 1;
    }
    assert(a@ =~= b@);
    true
}

} // verus!
