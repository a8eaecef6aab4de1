//! The ranking engine: scoped totals and top-N queries over the store.

use vstd::prelude::*;
use crate::database::{sum_counts, ChannelRow, Database, EmojiRow, MessageRow, ReactionRow, Tally};
use crate::model::Emoji;
use crate::database::{custom_row, is_glyphs, lemma_custom_row_is, lemma_sum_prefix_le, UserRow};
use crate::ranking::{is_ranking, lemma_ranking_unique, rank};

verus! {

/// The aggregation boundary of a query.
pub enum Scope {
    /// Unicode emoji, in every channel.
    Global,
    /// The channels of a server.
    Server(u64),
    /// The custom emoji of a server, in its channels.
    ServerCustom(u64),
    /// One channel.
    Channel(u64),
    /// One user: with a server, in its channels and with its emoji and the
    /// Unicode ones; without, with the Unicode emoji everywhere.
    User(u64, Option<u64>),
    /// Every row.
    Everywhere,
}

/// The server of the first channel row with this id.
pub open spec fn channel_server(chs: Seq<ChannelRow>, id: u64, k: int) -> Option<u64>
    decreases chs.len() - k,
{
    if k < 0 || k >= chs.len() {
        None
    } else if chs[k].id == id {
        Some(chs[k].server_id)
    } else {
        channel_server(chs, id, k + 1)
    }
}

/// Rows that count uses of emoji in the channels of a server.
pub open spec fn in_server(chs: Seq<ChannelRow>, channel_id: u64, server_id: u64) -> bool {
    channel_server(chs, channel_id, 0) == Some(server_id)
}

/// A usage row counts towards the ranking of `scope`. Rankings leave out
/// inactive emoji, except the global one, which holds Unicode emoji only.
pub open spec fn ranked_in(emoji: Seq<EmojiRow>, chs: Seq<ChannelRow>, scope: Scope, t: Tally) -> bool {
    let row = emoji[t.emoji as int];
    match scope {
        Scope::Global => row.emoji is Unicode,
        Scope::Server(s) => in_server(chs, t.channel_id, s) && row.is_active,
        Scope::ServerCustom(s) => in_server(chs, t.channel_id, s) && row.emoji is Custom && row.is_active,
        Scope::Channel(c) => t.channel_id == c && row.is_active,
        Scope::User(u, None) => t.user_id == u && row.emoji is Unicode && row.is_active,
        Scope::User(u, Some(s)) => t.user_id == u && row.is_active && (row.emoji is Unicode
            || row.emoji->Custom_0.server_id == s),
        Scope::Everywhere => true,
    }
}

/// A usage row counts towards the total number of uses in `scope`.
pub open spec fn counted_in(emoji: Seq<EmojiRow>, chs: Seq<ChannelRow>, scope: Scope, t: Tally) -> bool {
    let row = emoji[t.emoji as int];
    match scope {
        Scope::Global => row.emoji is Unicode,
        Scope::Server(s) => in_server(chs, t.channel_id, s),
        Scope::ServerCustom(s) => in_server(chs, t.channel_id, s) && row.emoji is Custom,
        Scope::Channel(c) => t.channel_id == c,
        Scope::User(u, None) => t.user_id == u,
        Scope::User(u, Some(s)) => t.user_id == u && in_server(chs, t.channel_id, s),
        Scope::Everywhere => true,
    }
}

/// The uses of the emoji at row `e` by the rows of `rows` that `scope` ranks.
pub open spec fn ranked_total(emoji: Seq<EmojiRow>, chs: Seq<ChannelRow>, rows: Seq<Tally>, scope: Scope, e: int) -> int
    decreases rows.len(),
{
    if rows.len() == 0 {
        0
    } else {
        ranked_total(emoji, chs, rows.drop_last(), scope, e) + if rows.last().emoji == e && ranked_in(
            emoji,
            chs,
            scope,
            rows.last(),
        ) {
            rows.last().count as int
        } else {
            0
        }
    }
}

/// The uses by the rows of `rows` that count towards `scope`.
pub open spec fn counted_total(emoji: Seq<EmojiRow>, chs: Seq<ChannelRow>, rows: Seq<Tally>, scope: Scope) -> int
    decreases rows.len(),
{
    if rows.len() == 0 {
        0
    } else {
        counted_total(emoji, chs, rows.drop_last(), scope) + if counted_in(emoji, chs, scope, rows.last()) {
            rows.last().count as int
        } else {
            0
        }
    }
}

/// Each reaction as a use of its emoji.
pub open spec fn reaction_tallies(rs: Seq<ReactionRow>) -> Seq<Tally> {
    rs.map_values(|r: ReactionRow| Tally { channel_id: r.channel_id, user_id: r.user_id, emoji: r.emoji, count: 1 })
}

/// The totals of each emoji row in the ranking of `scope`.
pub open spec fn ranked_totals(emoji: Seq<EmojiRow>, chs: Seq<ChannelRow>, rows: Seq<Tally>, scope: Scope) -> Seq<u64> {
    Seq::new(emoji.len(), |e: int| ranked_total(emoji, chs, rows, scope, e) as u64)
}

/// The emoji rows that `scope` ranks: those with some use in it.
pub open spec fn used(totals: Seq<u64>) -> Seq<bool> {
    Seq::new(totals.len(), |e: int| totals[e] > 0)
}

/// `r` is the list of emoji and totals that ranking `rows` in `scope` gives.
pub open spec fn is_top_emoji(db: Database, rows: Seq<Tally>, scope: Scope, limit: nat, r: Seq<(Emoji, u64)>) -> bool {
    let t = ranked_totals(db.emoji@, db.channels@, rows, scope);
    exists|idx: Seq<usize>| #[trigger] is_ranking(t, used(t), limit, false, idx) && r.len() == idx.len() && forall|k: int|
        0 <= k < r.len() ==> (#[trigger] r[k]) == (db.emoji@[idx[k] as int].emoji, t[idx[k] as int])
}

/// A query asked twice of the same rows gives the same list, in the same
/// order.
pub proof fn lemma_top_emoji_deterministic(
    db: Database,
    rows: Seq<Tally>,
    scope: Scope,
    limit: nat,
    a: Seq<(Emoji, u64)>,
    b: Seq<(Emoji, u64)>,
)
    requires
        is_top_emoji(db, rows, scope, limit, a),
        is_top_emoji(db, rows, scope, limit, b),
    ensures
        a == b,
{
    let t = ranked_totals(db.emoji@, db.channels@, rows, scope);
    let ia = choose|idx: Seq<usize>| #[trigger] is_ranking(t, used(t), limit, false, idx) && a.len() == idx.len()
        && forall|k: int| 0 <= k < a.len() ==> (#[trigger] a[k]) == (db.emoji@[idx[k] as int].emoji, t[idx[k] as int]);
    let ib = choose|idx: Seq<usize>| #[trigger] is_ranking(t, used(t), limit, false, idx) && b.len() == idx.len()
        && forall|k: int| 0 <= k < b.len() ==> (#[trigger] b[k]) == (db.emoji@[idx[k] as int].emoji, t[idx[k] as int]);
    lemma_ranking_unique(t, used(t), limit, false, ia, ib);
    assert(a =~= b);
}

/// The active custom emoji of a server.
pub open spec fn active_custom_of(emoji: Seq<EmojiRow>, server_id: u64) -> Seq<bool> {
    Seq::new(emoji.len(), |e: int| emoji[e].is_active && emoji[e].emoji is Custom
        && emoji[e].emoji->Custom_0.server_id == server_id)
}

/// `r` lists the least used active custom emoji of the server, with their
/// totals over `rows`: ascending, those never used first.
pub open spec fn is_least_used(db: Database, rows: Seq<Tally>, server_id: u64, limit: nat, r: Seq<(Emoji, u64)>) -> bool {
    let t = ranked_totals(db.emoji@, db.channels@, rows, Scope::Everywhere);
    exists|idx: Seq<usize>| #[trigger] is_ranking(t, active_custom_of(db.emoji@, server_id), limit, true, idx)
        && r.len() == idx.len() && forall|k: int| 0 <= k < r.len() ==> (#[trigger] r[k]) == (
        db.emoji@[idx[k] as int].emoji,
        t[idx[k] as int],
    )
}

/// A message counts towards the users ranking of `scope`.
pub open spec fn message_in(chs: Seq<ChannelRow>, scope: Scope, m: MessageRow) -> bool {
    match scope {
        Scope::Server(s) => in_server(chs, m.channel_id, s),
        Scope::ServerCustom(s) => in_server(chs, m.channel_id, s),
        Scope::Channel(c) => m.channel_id == c,
        Scope::User(u, _) => m.user_id == u,
        Scope::Global => true,
        Scope::Everywhere => true,
    }
}

/// The emoji in the messages of user `user_id` in `scope`.
pub open spec fn user_message_total(chs: Seq<ChannelRow>, ms: Seq<MessageRow>, scope: Scope, user_id: u64) -> int
    decreases ms.len(),
{
    if ms.len() == 0 {
        0
    } else {
        user_message_total(chs, ms.drop_last(), scope, user_id) + if ms.last().user_id == user_id && message_in(
            chs,
            scope,
            ms.last(),
        ) {
            ms.last().emoji_count as int
        } else {
            0
        }
    }
}

/// The uses by user `user_id` that count towards `scope`.
pub open spec fn user_usage_total(emoji: Seq<EmojiRow>, chs: Seq<ChannelRow>, rows: Seq<Tally>, scope: Scope, user_id: u64) -> int
    decreases rows.len(),
{
    if rows.len() == 0 {
        0
    } else {
        user_usage_total(emoji, chs, rows.drop_last(), scope, user_id) + if rows.last().user_id == user_id
            && counted_in(emoji, chs, scope, rows.last()) {
            rows.last().count as int
        } else {
            0
        }
    }
}

pub open spec fn saturate(x: int) -> u64 {
    if x <= u64::MAX {
        x as u64
    } else {
        u64::MAX
    }
}

/// The emoji in the messages of each user of the user table, in `scope`,
/// where the total is above `u64::MAX` that bound.
pub open spec fn user_message_totals(db: Database, scope: Scope) -> Seq<u64> {
    Seq::new(db.users@.len(), |i: int| saturate(user_message_total(db.channels@, db.messages@, scope, db.users@[i].id)))
}

/// The uses of each user of the user table, in `scope`.
pub open spec fn user_usage_totals(db: Database, scope: Scope) -> Seq<u64> {
    Seq::new(db.users@.len(), |i: int| user_usage_total(db.emoji@, db.channels@, db.usage@, scope, db.users@[i].id) as u64)
}

/// `r` lists the users with the greatest totals of `t`, above zero, with
/// their names and totals.
pub open spec fn is_top_users(users: Seq<UserRow>, t: Seq<u64>, limit: nat, r: Seq<(String, u64)>) -> bool {
    exists|idx: Seq<usize>| #[trigger] is_ranking(t, used(t), limit, false, idx) && r.len() == idx.len() && forall|k: int|
        0 <= k < r.len() ==> (#[trigger] r[k]).0@ == users[idx[k] as int].name@ && r[k].1 == t[idx[k] as int]
}

proof fn lemma_user_usage_le_sum(emoji: Seq<EmojiRow>, chs: Seq<ChannelRow>, rows: Seq<Tally>, scope: Scope, u: u64)
    ensures
        0 <= user_usage_total(emoji, chs, rows, scope, u) <= sum_counts(rows),
    decreases rows.len(),
{
    if rows.len() > 0 {
        lemma_user_usage_le_sum(emoji, chs, rows.drop_last(), scope, u);
    }
}

proof fn lemma_user_message_nonneg(chs: Seq<ChannelRow>, ms: Seq<MessageRow>, scope: Scope, u: u64)
    ensures
        0 <= user_message_total(chs, ms, scope, u),
    decreases ms.len(),
{
    if ms.len() > 0 {
        lemma_user_message_nonneg(chs, ms.drop_last(), scope, u);
    }
}

proof fn lemma_ranked_le_sum(emoji: Seq<EmojiRow>, chs: Seq<ChannelRow>, rows: Seq<Tally>, scope: Scope, e: int)
    ensures
        0 <= ranked_total(emoji, chs, rows, scope, e) <= sum_counts(rows),
    decreases rows.len(),
{
    if rows.len() > 0 {
        lemma_ranked_le_sum(emoji, chs, rows.drop_last(), scope, e);
    }
}

proof fn lemma_counted_le_sum(emoji: Seq<EmojiRow>, chs: Seq<ChannelRow>, rows: Seq<Tally>, scope: Scope)
    ensures
        0 <= counted_total(emoji, chs, rows, scope) <= sum_counts(rows),
    decreases rows.len(),
{
    if rows.len() > 0 {
        lemma_counted_le_sum(emoji, chs, rows.drop_last(), scope);
    }
}

proof fn lemma_sum_reactions(rs: Seq<ReactionRow>)
    ensures
        sum_counts(reaction_tallies(rs)) == rs.len(),
    decreases rs.len(),
{
    if rs.len() > 0 {
        lemma_sum_reactions(rs.drop_last());
        assert(reaction_tallies(rs).drop_last() =~= reaction_tallies(rs.drop_last()));
    }
}

impl Database {
    /// The server of a channel, by the channel table.
    pub fn server_of_channel(&self, channel_id: u64) -> (r: Option<u64>)
        ensures
            r == channel_server(self.channels@, channel_id, 0),
    {
        let mut i: usize = 0;
        while i < self.channels.len()
            invariant
                i <= self.channels@.len(),
                channel_server(self.channels@, channel_id, 0) == channel_server(self.channels@, channel_id, i as int),
            decreases self.channels@.len() - i,
        {
            if self.channels[i].id == channel_id {
                return Some(self.channels[i].server_id);
            }
            i = i + 1;
        }
        None
    }

    fn is_ranked_in(&self, scope: &Scope, t: &Tally) -> (r: bool)
        requires
            t.emoji < self.emoji@.len(),
        ensures
            r == ranked_in(self.emoji@, self.channels@, *scope, *t),
    {
        let row = &self.emoji[t.emoji];
        let unicode = match &row.emoji {
            Emoji::Unicode(_) => true,
            Emoji::Custom(_) => false,
        };
        match scope {
            Scope::Global => unicode,
            Scope::Server(s) => self.server_of_channel(t.channel_id) == Some(*s) && row.is_active,
            Scope::ServerCustom(s) => self.server_of_channel(t.channel_id) == Some(*s) && !unicode && row.is_active,
            Scope::Channel(c) => t.channel_id == *c && row.is_active,
            Scope::User(u, None) => t.user_id == *u && unicode && row.is_active,
            Scope::User(u, Some(s)) => t.user_id == *u && row.is_active && match &row.emoji {
                Emoji::Unicode(_) => true,
                Emoji::Custom(c) => c.server_id == *s,
            },
            Scope::Everywhere => true,
        }
    }

    fn is_counted_in(&self, scope: &Scope, t: &Tally) -> (r: bool)
        requires
            t.emoji < self.emoji@.len(),
        ensures
            r == counted_in(self.emoji@, self.channels@, *scope, *t),
    {
        let unicode = match &self.emoji[t.emoji].emoji {
            Emoji::Unicode(_) => true,
            Emoji::Custom(_) => false,
        };
        match scope {
            Scope::Global => unicode,
            Scope::Server(s) => self.server_of_channel(t.channel_id) == Some(*s),
            Scope::ServerCustom(s) => self.server_of_channel(t.channel_id) == Some(*s) && !unicode,
            Scope::Channel(c) => t.channel_id == *c,
            Scope::User(u, None) => t.user_id == *u,
            Scope::User(u, Some(s)) => t.user_id == *u && self.server_of_channel(t.channel_id) == Some(*s),
            Scope::Everywhere => true,
        }
    }

    /// The total of each emoji row in the ranking of `scope` over `rows`.
    fn totals(&self, rows: &Vec<Tally>, scope: &Scope) -> (v: Vec<u64>)
        requires
            sum_counts(rows@) <= u64::MAX,
            forall|i: int| 0 <= i < rows@.len() ==> (#[trigger] rows@[i]).emoji < self.emoji@.len(),
        ensures
            v@ == ranked_totals(self.emoji@, self.channels@, rows@, *scope),
    {
        let n = self.emoji.len();
        let mut v: Vec<u64> = Vec::new();
        while v.len() < n
            invariant
                v@.len() <= n == self.emoji@.len(),
                forall|e: int| 0 <= e < v@.len() ==> (#[trigger] v@[e]) == 0,
            decreases n - v@.len(),
        {
            v.push(0);
        }
        let mut k: usize = 0;
        while k < rows.len()
            invariant
                k <= rows@.len(),
                v@.len() == n == self.emoji@.len(),
                sum_counts(rows@) <= u64::MAX,
                forall|i: int| 0 <= i < rows@.len() ==> (#[trigger] rows@[i]).emoji < self.emoji@.len(),
                forall|e: int| 0 <= e < n ==> (#[trigger] v@[e]) == ranked_total(self.emoji@, self.channels@, rows@.subrange(0, k as int), *scope, e),
            decreases rows@.len() - k,
        {
            let ghost pre = rows@.subrange(0, k as int);
            let ghost next = rows@.subrange(0, k + 1);
            assert(next.drop_last() =~= pre);
            let t = &rows[k];
            if self.is_ranked_in(scope, t) {
                let e = t.emoji;
                proof {
                    lemma_ranked_le_sum(self.emoji@, self.channels@, next, *scope, e as int);
                    lemma_sum_prefix_le(rows@, k + 1);
                }
                let x = v[e] + t.count;
                v.set(e, x);
            }
            k = k + 1;
        }
        assert(rows@.subrange(0, rows@.len() as int) =~= rows@);
        assert(v@ =~= ranked_totals(self.emoji@, self.channels@, rows@, *scope));
        v
    }

    /// The number of uses in `scope` by `rows`.
    fn count_total(&self, rows: &Vec<Tally>, scope: &Scope) -> (r: u64)
        requires
            sum_counts(rows@) <= u64::MAX,
            forall|i: int| 0 <= i < rows@.len() ==> (#[trigger] rows@[i]).emoji < self.emoji@.len(),
        ensures
            r == counted_total(self.emoji@, self.channels@, rows@, *scope),
    {
        let mut total: u64 = 0;
        let mut k: usize = 0;
        while k < rows.len()
            invariant
                k <= rows@.len(),
                sum_counts(rows@) <= u64::MAX,
                forall|i: int| 0 <= i < rows@.len() ==> (#[trigger] rows@[i]).emoji < self.emoji@.len(),
                total == counted_total(self.emoji@, self.channels@, rows@.subrange(0, k as int), *scope),
            decreases rows@.len() - k,
        {
            let ghost next = rows@.subrange(0, k + 1);
            assert(next.drop_last() =~= rows@.subrange(0, k as int));
            let t = &rows[k];
            if self.is_counted_in(scope, t) {
                proof {
                    lemma_counted_le_sum(self.emoji@, self.channels@, next, *scope);
                    lemma_sum_prefix_le(rows@, k + 1);
                }
                total = total + t.count;
            }
            k = k + 1;
        }
        assert(rows@.subrange(0, rows@.len() as int) =~= rows@);
        total
    }

    /// The reactions, each as one use of its emoji.
    fn reaction_rows(&self) -> (v: Vec<Tally>)
        ensures
            v@ == reaction_tallies(self.reactions@),
    {
        let mut v: Vec<Tally> = Vec::new();
        let mut i: usize = 0;
        while i < self.reactions.len()
            invariant
                i <= self.reactions@.len(),
                v@ == reaction_tallies(self.reactions@.subrange(0, i as int)),
            decreases self.reactions@.len() - i,
        {
            let r = &self.reactions[i];
            v.push(Tally { channel_id: r.channel_id, user_id: r.user_id, emoji: r.emoji, count: 1 });
            assert(reaction_tallies(self.reactions@.subrange(0, i + 1)) =~= reaction_tallies(
                self.reactions@.subrange(0, i as int),
            ).push(Tally { channel_id: r.channel_id, user_id: r.user_id, emoji: r.emoji, count: 1 }));
            i = i + 1;
        }
        assert(self.reactions@.subrange(0, i as int) =~= self.reactions@);
        v
    }

    /// The emoji of the ranking of `scope` over `rows`, with their totals.
    fn top_of(&self, rows: &Vec<Tally>, scope: &Scope, limit: usize) -> (r: Vec<(Emoji, u64)>)
        requires
            self.wf(),
            sum_counts(rows@) <= u64::MAX,
            forall|i: int| 0 <= i < rows@.len() ==> (#[trigger] rows@[i]).emoji < self.emoji@.len(),
        ensures
            is_top_emoji(*self, rows@, *scope, limit as nat, r@),
    {
        let t = self.totals(rows, scope);
        let mut eligible: Vec<bool> = Vec::new();
        let mut i: usize = 0;
        while i < t.len()
            invariant
                i <= t@.len(),
                eligible@ =~= used(t@).subrange(0, i as int),
            decreases t@.len() - i,
        {
            eligible.push(t[i] > 0);
            i = i + 1;
        }
        assert(eligible@ =~= used(t@));
        let idx = rank(&t, &eligible, limit, false);
        let mut out: Vec<(Emoji, u64)> = Vec::new();
        let mut k: usize = 0;
        while k < idx.len()
            invariant
                k <= idx@.len(),
                t@.len() == self.emoji@.len(),
                is_ranking(t@, eligible@, limit as nat, false, idx@),
                out@.len() == k,
                forall|m: int| 0 <= m < k ==> (#[trigger] out@[m]) == (self.emoji@[idx@[m] as int].emoji, t@[idx@[m] as int]),
            decreases idx@.len() - k,
        {
            let e = idx[k];
            assert(idx@[k as int] < t@.len());
            out.push((self.emoji[e].emoji.clone(), t[e]));
            k = k + 1;
        }
        assert(is_ranking(t@, used(t@), limit as nat, false, idx@));
        out
    }

    /// The most used emoji in `scope`, at most `limit` of them, with their
    /// number of uses: by that number, descending, and by their order in the
    /// emoji table among equal numbers.
    pub fn top_emoji(&self, scope: Scope, limit: usize) -> (r: Vec<(Emoji, u64)>)
        requires
            self.wf(),
        ensures
            is_top_emoji(*self, self.usage@, scope, limit as nat, r@),
    {
        self.top_of(&self.usage, &scope, limit)
    }

    /// The emoji most used in reactions in `scope`, at most `limit` of them,
    /// with their number of reactions.
    pub fn top_reaction_emoji(&self, scope: Scope, limit: usize) -> (r: Vec<(Emoji, u64)>)
        requires
            self.wf(),
        ensures
            is_top_emoji(*self, reaction_tallies(self.reactions@), scope, limit as nat, r@),
    {
        let rows = self.reaction_rows();
        let n: usize = self.reactions.len();
        proof {
            lemma_sum_reactions(self.reactions@);
            assert(n <= u64::MAX);
            assert forall|i: int| 0 <= i < rows@.len() implies (#[trigger] rows@[i]).emoji < self.emoji@.len() by {
                assert(self.reactions@[i].emoji < self.emoji@.len());
            }
        }
        self.top_of(&rows, &scope, limit)
    }

    /// The number of uses of emoji in `scope`.
    pub fn total_use_count(&self, scope: Scope) -> (r: u64)
        requires
            self.wf(),
        ensures
            r == counted_total(self.emoji@, self.channels@, self.usage@, scope),
    {
        self.count_total(&self.usage, &scope)
    }

    /// The number of reactions in `scope`.
    pub fn total_reaction_count(&self, scope: Scope) -> (r: u64)
        requires
            self.wf(),
        ensures
            r == counted_total(self.emoji@, self.channels@, reaction_tallies(self.reactions@), scope),
    {
        let rows = self.reaction_rows();
        let n: usize = self.reactions.len();
        proof {
            lemma_sum_reactions(self.reactions@);
            assert(n <= u64::MAX);
            assert forall|i: int| 0 <= i < rows@.len() implies (#[trigger] rows@[i]).emoji < self.emoji@.len() by {
                assert(self.reactions@[i].emoji < self.emoji@.len());
            }
        }
        self.count_total(&rows, &scope)
    }

    /// The active custom emoji of a server that were used least, at most
    /// `limit` of them, with their uses anywhere: ascending, emoji never used
    /// first, and by their order in the emoji table among equal numbers.
    pub fn least_used_custom_emoji(&self, server_id: u64, limit: usize) -> (r: Vec<(Emoji, u64)>)
        requires
            self.wf(),
        ensures
            is_least_used(*self, self.usage@, server_id, limit as nat, r@),
    {
        self.least_used_of(&self.usage, server_id, limit)
    }

    /// The active custom emoji of a server that were least used in
    /// reactions, at most `limit` of them, with their numbers of reactions.
    pub fn least_used_custom_reaction_emoji(&self, server_id: u64, limit: usize) -> (r: Vec<(Emoji, u64)>)
        requires
            self.wf(),
        ensures
            is_least_used(*self, reaction_tallies(self.reactions@), server_id, limit as nat, r@),
    {
        let rows = self.reaction_rows();
        let n: usize = self.reactions.len();
        proof {
            lemma_sum_reactions(self.reactions@);
            assert(n <= u64::MAX);
            assert forall|i: int| 0 <= i < rows@.len() implies (#[trigger] rows@[i]).emoji < self.emoji@.len() by {
                assert(self.reactions@[i].emoji < self.emoji@.len());
            }
        }
        self.least_used_of(&rows, server_id, limit)
    }

    fn least_used_of(&self, rows: &Vec<Tally>, server_id: u64, limit: usize) -> (r: Vec<(Emoji, u64)>)
        requires
            self.wf(),
            sum_counts(rows@) <= u64::MAX,
            forall|i: int| 0 <= i < rows@.len() ==> (#[trigger] rows@[i]).emoji < self.emoji@.len(),
        ensures
            is_least_used(*self, rows@, server_id, limit as nat, r@),
    {
        let t = self.totals(rows, &Scope::Everywhere);
        let mut eligible: Vec<bool> = Vec::new();
        let mut i: usize = 0;
        while i < self.emoji.len()
            invariant
                i <= self.emoji@.len(),
                eligible@ =~= active_custom_of(self.emoji@, server_id).subrange(0, i as int),
            decreases self.emoji@.len() - i,
        {
            let row = &self.emoji[i];
            let b = row.is_active && match &row.emoji {
                Emoji::Custom(c) => c.server_id == server_id,
                Emoji::Unicode(_) => false,
            };
            eligible.push(b);
            i = i + 1;
        }
        assert(eligible@ =~= active_custom_of(self.emoji@, server_id));
        let idx = rank(&t, &eligible, limit, true);
        let mut out: Vec<(Emoji, u64)> = Vec::new();
        let mut k: usize = 0;
        while k < idx.len()
            invariant
                k <= idx@.len(),
                t@.len() == self.emoji@.len(),
                is_ranking(t@, eligible@, limit as nat, true, idx@),
                out@.len() == k,
                forall|m: int| 0 <= m < k ==> (#[trigger] out@[m]) == (self.emoji@[idx@[m] as int].emoji, t@[idx@[m] as int]),
            decreases idx@.len() - k,
        {
            let e = idx[k];
            assert(idx@[k as int] < t@.len());
            out.push((self.emoji[e].emoji.clone(), t[e]));
            k = k + 1;
        }
        out
    }

    /// The emoji in the messages of each user of the user table, in `scope`.
    fn message_totals(&self, scope: &Scope) -> (v: Vec<u64>)
        ensures
            v@ == user_message_totals(*self, *scope),
    {
        let mut v: Vec<u64> = Vec::new();
        let mut i: usize = 0;
        while i < self.users.len()
            invariant
                i <= self.users@.len(),
                v@ =~= user_message_totals(*self, *scope).subrange(0, i as int),
            decreases self.users@.len() - i,
        {
            let uid = self.users[i].id;
            let mut total: u64 = 0;
            let mut k: usize = 0;
            while k < self.messages.len()
                invariant
                    k <= self.messages@.len(),
                    total == saturate(user_message_total(self.channels@, self.messages@.subrange(0, k as int), *scope, uid)),
                decreases self.messages@.len() - k,
            {
                let ghost next = self.messages@.subrange(0, k + 1);
                assert(next.drop_last() =~= self.messages@.subrange(0, k as int));
                proof {
                    lemma_user_message_nonneg(self.channels@, self.messages@.subrange(0, k as int), *scope, uid);
                }
                let m = &self.messages[k];
                let inside = match scope {
                    Scope::Server(s) => self.server_of_channel(m.channel_id) == Some(*s),
                    Scope::ServerCustom(s) => self.server_of_channel(m.channel_id) == Some(*s),
                    Scope::Channel(c) => m.channel_id == *c,
                    Scope::User(u, _) => m.user_id == *u,
                    Scope::Global => true,
                    Scope::Everywhere => true,
                };
                if m.user_id == uid && inside {
                    total = total.saturating_add(m.emoji_count);
                }
                k = k + 1;
            }
            assert(self.messages@.subrange(0, self.messages@.len() as int) =~= self.messages@);
            v.push(total);
            i = i + 1;
        }
        v
    }

    /// The uses of each user of the user table that count towards `scope`.
    fn usage_totals_by_user(&self, scope: &Scope) -> (v: Vec<u64>)
        requires
            self.wf(),
        ensures
            v@ == user_usage_totals(*self, *scope),
    {
        let mut v: Vec<u64> = Vec::new();
        let mut i: usize = 0;
        while i < self.users.len()
            invariant
                i <= self.users@.len(),
                self.wf(),
                v@ =~= user_usage_totals(*self, *scope).subrange(0, i as int),
            decreases self.users@.len() - i,
        {
            let uid = self.users[i].id;
            let mut total: u64 = 0;
            let mut k: usize = 0;
            while k < self.usage.len()
                invariant
                    k <= self.usage@.len(),
                    self.wf(),
                    total == user_usage_total(self.emoji@, self.channels@, self.usage@.subrange(0, k as int), *scope, uid),
                decreases self.usage@.len() - k,
            {
                let ghost next = self.usage@.subrange(0, k + 1);
                assert(next.drop_last() =~= self.usage@.subrange(0, k as int));
                let t = &self.usage[k];
                if t.user_id == uid && self.is_counted_in(scope, t) {
                    proof {
                        lemma_user_usage_le_sum(self.emoji@, self.channels@, next, *scope, uid);
                        lemma_sum_prefix_le(self.usage@, k + 1);
                    }
                    total = total + t.count;
                }
                k = k + 1;
            }
            assert(self.usage@.subrange(0, self.usage@.len() as int) =~= self.usage@);
            proof {
                lemma_user_usage_le_sum(self.emoji@, self.channels@, self.usage@, *scope, uid);
            }
            v.push(total);
            i = i + 1;
        }
        v
    }

    fn top_users_of(&self, t: Vec<u64>, limit: usize) -> (r: Vec<(String, u64)>)
        requires
            t@.len() == self.users@.len(),
        ensures
            is_top_users(self.users@, t@, limit as nat, r@),
    {
        let mut eligible: Vec<bool> = Vec::new();
        let mut i: usize = 0;
        while i < t.len()
            invariant
                i <= t@.len(),
                eligible@ =~= used(t@).subrange(0, i as int),
            decreases t@.len() - i,
        {
            eligible.push(t[i] > 0);
            i = i + 1;
        }
        assert(eligible@ =~= used(t@));
        let idx = rank(&t, &eligible, limit, false);
        let mut out: Vec<(String, u64)> = Vec::new();
        let mut k: usize = 0;
        while k < idx.len()
            invariant
                k <= idx@.len(),
                t@.len() == self.users@.len(),
                is_ranking(t@, eligible@, limit as nat, false, idx@),
                out@.len() == k,
                forall|m: int| 0 <= m < k ==> (#[trigger] out@[m]).0@ == self.users@[idx@[m] as int].name@ && out@[m].1
                    == t@[idx@[m] as int],
            decreases idx@.len() - k,
        {
            let e = idx[k];
            assert(idx@[k as int] < t@.len());
            out.push((self.users[e].name.clone(), t[e]));
            k = k + 1;
        }
        assert(is_ranking(t@, used(t@), limit as nat, false, idx@));
        out
    }

    /// The users who used the most emoji in their messages in `scope`, at
    /// most `limit` of them, with their names and numbers of emoji; users
    /// with none are left out.
    pub fn top_users(&self, scope: Scope, limit: usize) -> (r: Vec<(String, u64)>)
        ensures
            is_top_users(self.users@, user_message_totals(*self, scope), limit as nat, r@),
    {
        let t = self.message_totals(&scope);
        self.top_users_of(t, limit)
    }

    /// The users with the most uses that count towards `scope`, at most
    /// `limit` of them, with their names and numbers of uses.
    pub fn top_users_by_usage(&self, scope: Scope, limit: usize) -> (r: Vec<(String, u64)>)
        requires
            self.wf(),
        ensures
            is_top_users(self.users@, user_usage_totals(*self, scope), limit as nat, r@),
    {
        let t = self.usage_totals_by_user(&scope);
        self.top_users_of(t, limit)
    }

    /// The number of uses of an emoji anywhere; `None` for a Unicode emoji
    /// that has no row.
    pub fn get_emoji_usage(&self, emoji: &Emoji) -> (r: Option<u64>)
        requires
            self.wf(),
        ensures
            match *emoji {
                Emoji::Custom(c) => match custom_row(self.emoji@, c.id) {
                    Some(e) => r == Some(ranked_total(self.emoji@, self.channels@, self.usage@, Scope::Everywhere, e) as u64),
                    None => r == Some(0u64),
                },
                Emoji::Unicode(g) => if exists|i: int| 0 <= i < self.emoji@.len() && is_glyphs(#[trigger] self.emoji@[i].emoji, g@) {
                    exists|i: int| 0 <= i < self.emoji@.len() && is_glyphs(#[trigger] self.emoji@[i].emoji, g@)
                        && r == Some(ranked_total(self.emoji@, self.channels@, self.usage@, Scope::Everywhere, i) as u64)
                } else {
                    r is None
                },
            },
    {
        let found = match emoji {
            Emoji::Custom(c) => {
                match self.find_custom_emoji(c.id) {
                    Some(e) => {
                        proof {
                            lemma_custom_row_is(self.emoji@, c.id, e as int);
                        }
                        Some(e)
                    },
                    None => {
                        return Some(0);
                    },
                }
            },
            Emoji::Unicode(g) => self.get_emoji_id(g.as_str()),
        };
        match found {
            Some(e) => {
                let t = self.totals(&self.usage, &Scope::Everywhere);
                Some(t[e])
            },
            None => None,
        }
    }

    pub fn get_global_top_emoji(&self) -> (r: Vec<(Emoji, u64)>)
        requires
            self.wf(),
        ensures
            is_top_emoji(*self, self.usage@, Scope::Global, 5, r@),
    {
        self.top_emoji(Scope::Global, 5)
    }

    pub fn get_global_top_reaction_emoji(&self) -> (r: Vec<(Emoji, u64)>)
        requires
            self.wf(),
        ensures
            is_top_emoji(*self, reaction_tallies(self.reactions@), Scope::Global, 5, r@),
    {
        self.top_reaction_emoji(Scope::Global, 5)
    }

    pub fn get_global_emoji_use_count(&self) -> (r: u64)
        requires
            self.wf(),
        ensures
            r == counted_total(self.emoji@, self.channels@, self.usage@, Scope::Global),
    {
        self.total_use_count(Scope::Global)
    }

    pub fn get_global_reaction_count(&self) -> (r: u64)
        requires
            self.wf(),
        ensures
            r == counted_total(self.emoji@, self.channels@, reaction_tallies(self.reactions@), Scope::Global),
    {
        self.total_reaction_count(Scope::Global)
    }

    pub fn get_server_top_emoji(&self, server_id: u64) -> (r: Vec<(Emoji, u64)>)
        requires
            self.wf(),
        ensures
            is_top_emoji(*self, self.usage@, Scope::Server(server_id), 5, r@),
    {
        self.top_emoji(Scope::Server(server_id), 5)
    }

    pub fn get_server_least_used_custom_emoji(&self, server_id: u64) -> (r: Vec<(Emoji, u64)>)
        requires
            self.wf(),
        ensures
            is_least_used(*self, self.usage@, server_id, 5, r@),
    {
        self.least_used_custom_emoji(server_id, 5)
    }

    pub fn get_server_least_used_custom_reaction_emoji(&self, server_id: u64) -> (r: Vec<(Emoji, u64)>)
        requires
            self.wf(),
        ensures
            is_least_used(*self, reaction_tallies(self.reactions@), server_id, 5, r@),
    {
        self.least_used_custom_reaction_emoji(server_id, 5)
    }

    pub fn get_server_top_custom_emoji(&self, server_id: u64) -> (r: Vec<(Emoji, u64)>)
        requires
            self.wf(),
        ensures
            is_top_emoji(*self, self.usage@, Scope::ServerCustom(server_id), 5, r@),
    {
        self.top_emoji(Scope::ServerCustom(server_id), 5)
    }

    pub fn get_server_top_custom_reaction_emoji(&self, server_id: u64) -> (r: Vec<(Emoji, u64)>)
        requires
            self.wf(),
        ensures
            is_top_emoji(*self, reaction_tallies(self.reactions@), Scope::ServerCustom(server_id), 5, r@),
    {
        self.top_reaction_emoji(Scope::ServerCustom(server_id), 5)
    }

    pub fn get_server_custom_emoji_reaction_use_count(&self, server_id: u64) -> (r: u64)
        requires
            self.wf(),
        ensures
            r == counted_total(self.emoji@, self.channels@, reaction_tallies(self.reactions@), Scope::ServerCustom(server_id)),
    {
        self.total_reaction_count(Scope::ServerCustom(server_id))
    }

    pub fn get_server_top_reaction_emoji(&self, server_id: u64) -> (r: Vec<(Emoji, u64)>)
        requires
            self.wf(),
        ensures
            is_top_emoji(*self, reaction_tallies(self.reactions@), Scope::Server(server_id), 5, r@),
    {
        self.top_reaction_emoji(Scope::Server(server_id), 5)
    }

    pub fn get_server_emoji_use_count(&self, server_id: u64) -> (r: u64)
        requires
            self.wf(),
        ensures
            r == counted_total(self.emoji@, self.channels@, self.usage@, Scope::Server(server_id)),
    {
        self.total_use_count(Scope::Server(server_id))
    }

    pub fn get_server_reaction_count(&self, server_id: u64) -> (r: u64)
        requires
            self.wf(),
        ensures
            r == counted_total(self.emoji@, self.channels@, reaction_tallies(self.reactions@), Scope::Server(server_id)),
    {
        self.total_reaction_count(Scope::Server(server_id))
    }

    pub fn get_server_custom_emoji_use_count(&self, server_id: u64) -> (r: u64)
        requires
            self.wf(),
        ensures
            r == counted_total(self.emoji@, self.channels@, self.usage@, Scope::ServerCustom(server_id)),
    {
        self.total_use_count(Scope::ServerCustom(server_id))
    }

    pub fn get_channel_top_emoji(&self, channel_id: u64) -> (r: Vec<(Emoji, u64)>)
        requires
            self.wf(),
        ensures
            is_top_emoji(*self, self.usage@, Scope::Channel(channel_id), 5, r@),
    {
        self.top_emoji(Scope::Channel(channel_id), 5)
    }

    pub fn get_channel_emoji_use_count(&self, channel_id: u64) -> (r: u64)
        requires
            self.wf(),
        ensures
            r == counted_total(self.emoji@, self.channels@, self.usage@, Scope::Channel(channel_id)),
    {
        self.total_use_count(Scope::Channel(channel_id))
    }

    pub fn get_user_top_emoji(&self, user_id: u64, server_id: Option<u64>) -> (r: Vec<(Emoji, u64)>)
        requires
            self.wf(),
        ensures
            is_top_emoji(*self, self.usage@, Scope::User(user_id, server_id), 5, r@),
    {
        self.top_emoji(Scope::User(user_id, server_id), 5)
    }

    pub fn get_user_emoji_use_count(&self, user_id: u64, server_id: Option<u64>) -> (r: u64)
        requires
            self.wf(),
        ensures
            r == counted_total(self.emoji@, self.channels@, self.usage@, Scope::User(user_id, server_id)),
    {
        self.total_use_count(Scope::User(user_id, server_id))
    }

    pub fn get_server_top_users(&self, server_id: u64) -> (r: Vec<(String, u64)>)
        ensures
            is_top_users(self.users@, user_message_totals(*self, Scope::Server(server_id)), 5, r@),
    {
        self.top_users(Scope::Server(server_id), 5)
    }

    pub fn get_server_top_custom_emoji_users(&self, server_id: u64) -> (r: Vec<(String, u64)>)
        requires
            self.wf(),
        ensures
            is_top_users(self.users@, user_usage_totals(*self, Scope::ServerCustom(server_id)), 5, r@),
    {
        self.top_users_by_usage(Scope::ServerCustom(server_id), 5)
    }

    pub fn get_channel_top_users(&self, channel_id: u64) -> (r: Vec<(String, u64)>)
        ensures
            is_top_users(self.users@, user_message_totals(*self, Scope::Channel(channel_id)), 5, r@),
    {
        self.top_users(Scope::Channel(channel_id), 5)
    }
}

} // verus!
