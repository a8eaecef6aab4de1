//! The roster: the servers, text channels and private channels that the bot
//! believes exist, and the channels that could not be found.

use vstd::prelude::*;
use crate::table::{Keyed, Table};

verus! {

pub struct BasicServerInfo {
    pub id: u64,
    pub name: String,
    pub icon: Option<String>,
}

/// The kind of a server channel: text, or anything else.
pub enum ChannelKind {
    Text,
    Other,
}

pub struct PublicChannel {
    pub id: u64,
    pub server_id: u64,
    pub name: String,
    pub kind: ChannelKind,
}

/// A direct-message channel with one user.
pub struct PrivateChannel {
    pub id: u64,
    pub recipient_id: u64,
    pub recipient_name: String,
}

pub enum Channel {
    Public(PublicChannel),
    Private(PrivateChannel),
    /// A group channel, which is not tracked.
    Group(u64),
}

impl Clone for ChannelKind {
    fn clone(&self) -> (r: Self)
        ensures
            r == *self,
    {
        match self {
            ChannelKind::Text => ChannelKind::Text,
            ChannelKind::Other => ChannelKind::Other,
        }
    }
}

impl Clone for PublicChannel {
    fn clone(&self) -> (r: Self)
        ensures
            r == *self,
    {
        PublicChannel { id: self.id, server_id: self.server_id, name: self.name.clone(), kind: self.kind.clone() }
    }
}

impl Keyed for BasicServerInfo {
    open spec fn key_of(&self) -> u64 {
        self.id
    }

    fn key(&self) -> (r: u64) {
        self.id
    }
}

impl Keyed for PublicChannel {
    open spec fn key_of(&self) -> u64 {
        self.id
    }

    fn key(&self) -> (r: u64) {
        self.id
    }
}

impl Keyed for PrivateChannel {
    open spec fn key_of(&self) -> u64 {
        self.id
    }

    fn key(&self) -> (r: u64) {
        self.id
    }
}

pub struct Roster {
    pub servers: Table<BasicServerInfo>,
    pub public_text_channels: Table<PublicChannel>,
    pub private_channels: Table<PrivateChannel>,
    /// Channels that stayed unknown after the one refresh they caused.
    pub unknown_channels: Vec<u64>,
}

/// The server channels of `old` but those of server `server_id`.
pub open spec fn without_server(old: Map<u64, PublicChannel>, server_id: u64) -> Map<u64, PublicChannel> {
    old.restrict(old.dom().filter(|c: u64| old[c].server_id != server_id))
}

/// The server channels of `m` once the text channels of `list` are added
/// in order.
pub open spec fn with_channels(m: Map<u64, PublicChannel>, list: Seq<PublicChannel>) -> Map<u64, PublicChannel>
    decreases list.len(),
{
    if list.len() == 0 {
        m
    } else {
        let rest = with_channels(m, list.drop_last());
        if list.last().kind is Text {
            rest.insert(list.last().id, list.last())
        } else {
            rest
        }
    }
}

/// A message from this channel asks for a refresh of the server list: the
/// channel is neither known nor known to be unknown.
pub open spec fn needs_refresh(r: Roster, channel_id: u64) -> bool {
    !r.public_text_channels@.contains_key(channel_id) && !r.private_channels@.contains_key(channel_id)
        && !r.unknown_channels@.contains(channel_id)
}

/// A refresh for this channel was attempted and `new` is `old` afterwards:
/// a channel that is still not a known text channel is remembered as unknown.
pub open spec fn refresh_finished(old: Roster, new: Roster, channel_id: u64) -> bool {
    &&& new.servers@ == old.servers@
    &&& new.public_text_channels@ == old.public_text_channels@
    &&& new.private_channels@ == old.private_channels@
    &&& new.unknown_channels@ == if !old.public_text_channels@.contains_key(channel_id)
        && !old.unknown_channels@.contains(channel_id) {
        old.unknown_channels@.push(channel_id)
    } else {
        old.unknown_channels@
    }
}

/// A channel causes one refresh at most: once a refresh for it has finished
/// and it is still unknown, no later message from it asks for another,
/// whatever else changes in the roster while the unknown channels are kept.
pub proof fn lemma_refresh_once(r0: Roster, r1: Roster, r2: Roster, channel_id: u64)
    requires
        refresh_finished(r0, r1, channel_id),
        !r1.public_text_channels@.contains_key(channel_id),
        r2.unknown_channels@ == r1.unknown_channels@,
    ensures
        r1.unknown_channels@.contains(channel_id),
        !needs_refresh(r2, channel_id),
{
    if !r0.unknown_channels@.contains(channel_id) {
        assert(r1.unknown_channels@[r1.unknown_channels@.len() - 1] == channel_id);
    }
}

impl Roster {
    pub open spec fn wf(&self) -> bool {
        &&& self.servers.wf()
        &&& self.public_text_channels.wf()
        &&& self.private_channels.wf()
    }

    pub fn new() -> (r: Roster)
        ensures
            r.wf(),
            r.servers@ == Map::<u64, BasicServerInfo>::empty(),
            r.public_text_channels@ == Map::<u64, PublicChannel>::empty(),
            r.private_channels@ == Map::<u64, PrivateChannel>::empty(),
            r.unknown_channels@ == Seq::<u64>::empty(),
    {
        Roster {
            servers: Table::new(),
            public_text_channels: Table::new(),
            private_channels: Table::new(),
            unknown_channels: Vec::new(),
        }
    }

    /// Adds a channel, or brings it up to date. Only text channels and
    /// private channels are kept; other channels are ignored.
    pub fn add_channel(&mut self, channel: Channel)
        requires
            old(self).wf(),
        ensures
            final(self).wf(),
            final(self).servers@ == old(self).servers@,
            final(self).unknown_channels@ == old(self).unknown_channels@,
            match channel {
                Channel::Public(c) => {
                    &&& final(self).private_channels@ == old(self).private_channels@
                    &&& final(self).public_text_channels@ == if c.kind is Text {
                        old(self).public_text_channels@.insert(c.id, c)
                    } else {
                        old(self).public_text_channels@
                    }
                },
                Channel::Private(c) => {
                    &&& final(self).private_channels@ == old(self).private_channels@.insert(c.id, c)
                    &&& final(self).public_text_channels@ == old(self).public_text_channels@
                },
                Channel::Group(_) => {
                    &&& final(self).private_channels@ == old(self).private_channels@
                    &&& final(self).public_text_channels@ == old(self).public_text_channels@
                },
            },
    {
        match channel {
            Channel::Public(c) => {
                if let ChannelKind::Text = c.kind {
                    self.public_text_channels.upsert(c);
                }
            },
            Channel::Private(c) => {
                self.private_channels.upsert(c);
            },
            Channel::Group(_) => {},
        }
    }

    /// Removes a channel by its id from the table of its kind.
    pub fn remove_channel(&mut self, channel: &Channel)
        requires
            old(self).wf(),
        ensures
            final(self).wf(),
            final(self).servers@ == old(self).servers@,
            final(self).unknown_channels@ == old(self).unknown_channels@,
            match *channel {
                Channel::Public(c) => {
                    &&& final(self).private_channels@ == old(self).private_channels@
                    &&& final(self).public_text_channels@ == old(self).public_text_channels@.remove(c.id)
                },
                Channel::Private(c) => {
                    &&& final(self).private_channels@ == old(self).private_channels@.remove(c.id)
                    &&& final(self).public_text_channels@ == old(self).public_text_channels@
                },
                Channel::Group(_) => {
                    &&& final(self).private_channels@ == old(self).private_channels@
                    &&& final(self).public_text_channels@ == old(self).public_text_channels@
                },
            },
    {
        match channel {
            Channel::Public(c) => self.public_text_channels.remove(c.id),
            Channel::Private(c) => self.private_channels.remove(c.id),
            Channel::Group(_) => {},
        }
    }

    /// Adds a server, or brings its name and icon up to date, with its
    /// channels.
    pub fn add_server_info(&mut self, server: BasicServerInfo, channels: Vec<PublicChannel>)
        requires
            old(self).wf(),
        ensures
            final(self).wf(),
            final(self).servers@ == old(self).servers@.insert(server.id, server),
            final(self).public_text_channels@ == with_channels(old(self).public_text_channels@, channels@),
            final(self).private_channels@ == old(self).private_channels@,
            final(self).unknown_channels@ == old(self).unknown_channels@,
    {
        let ghost start = self.public_text_channels@;
        let mut i: usize = 0;
        while i < channels.len()
            invariant
                i <= channels@.len(),
                self.wf(),
                self.servers@ == old(self).servers@,
                self.private_channels@ == old(self).private_channels@,
                self.unknown_channels@ == old(self).unknown_channels@,
                start == old(self).public_text_channels@,
                self.public_text_channels@ == with_channels(start, channels@.subrange(0, i as int)),
            decreases channels@.len() - i,
        {
            let c = channels[i].clone();
            assert(channels@.subrange(0, i + 1).drop_last() =~= channels@.subrange(0, i as int));
            self.add_channel(Channel::Public(c));
            i = i + 1;
        }
        assert(channels@.subrange(0, i as int) =~= channels@);
        self.servers.upsert(server);
    }

    /// Brings a known server's name and icon up to date; an unknown server is
    /// left unknown.
    pub fn update_server(&mut self, server: BasicServerInfo)
        requires
            old(self).wf(),
        ensures
            final(self).wf(),
            final(self).servers@ == if old(self).servers@.contains_key(server.id) {
                old(self).servers@.insert(server.id, server)
            } else {
                old(self).servers@
            },
            final(self).public_text_channels@ == old(self).public_text_channels@,
            final(self).private_channels@ == old(self).private_channels@,
            final(self).unknown_channels@ == old(self).unknown_channels@,
    {
        if self.servers.contains(server.id) {
            self.servers.upsert(server);
        }
    }

    /// Removes a server and all of its channels.
    pub fn remove_server_id(&mut self, server_id: u64)
        requires
            old(self).wf(),
        ensures
            final(self).wf(),
            final(self).servers@ == old(self).servers@.remove(server_id),
            final(self).public_text_channels@ == without_server(old(self).public_text_channels@, server_id),
            final(self).private_channels@ == old(self).private_channels@,
            final(self).unknown_channels@ == old(self).unknown_channels@,
    {
        self.servers.remove(server_id);
        let ghost start = self.public_text_channels@;
        let keys = self.public_text_channels.keys();
        let mut i: usize = 0;
        while i < keys.len()
            invariant
                i <= keys@.len(),
                self.wf(),
                self.servers@ == old(self).servers@.remove(server_id),
                self.private_channels@ == old(self).private_channels@,
                self.unknown_channels@ == old(self).unknown_channels@,
                start == old(self).public_text_channels@,
                forall|k: u64| #[trigger] keys@.contains(k) <==> start.contains_key(k),
                forall|k: u64| #[trigger] self.public_text_channels@.contains_key(k) ==> start.contains_key(k)
                    && self.public_text_channels@[k] == start[k],
                forall|k: u64| start.contains_key(k) && start[k].server_id != server_id ==> #[trigger] self.public_text_channels@.contains_key(k),
                forall|j: int| 0 <= j < i ==> !(#[trigger] self.public_text_channels@.contains_key(keys@[j])
                    && start[keys@[j]].server_id == server_id),
                forall|k: u64| start.contains_key(k) && !keys@.subrange(0, i as int).contains(k) ==> #[trigger] self.public_text_channels@.contains_key(k),
            decreases keys@.len() - i,
        {
            let k = keys[i];
            let remove = match self.public_text_channels.get(k) {
                Some(c) => c.server_id == server_id,
                None => false,
            };
            if remove {
                self.public_text_channels.remove(k);
            }
            let ghost s0 = keys@.subrange(0, i as int);
            let ghost s1 = keys@.subrange(0, i + 1);
            assert forall|q: u64| start.contains_key(q) && !s1.contains(q) implies #[trigger] self.public_text_channels@.contains_key(q) by {
                assert(!s0.contains(q)) by {
                    if s0.contains(q) {
                        let p = choose|p: int| 0 <= p < s0.len() && s0[p] == q;
                        assert(s1[p] == q);
                    }
                }
                assert(q != k) by {
                    assert(s1[i as int] == k);
                }
            }
            i = i + 1;
        }
        assert forall|q: u64| #[trigger] self.public_text_channels@.contains_key(q) == without_server(start, server_id).contains_key(q) by {
            if start.contains_key(q) && start[q].server_id == server_id {
                assert(keys@.contains(q));
                let p = choose|p: int| 0 <= p < keys@.len() && keys@[p] == q;
                assert(!(self.public_text_channels@.contains_key(keys@[p]) && start[keys@[p]].server_id == server_id));
            }
        }
        assert(self.public_text_channels@ =~= without_server(start, server_id));
    }

    /// The ids among `ids` of servers that the roster does not know.
    pub fn new_servers(&self, ids: &Vec<u64>) -> (r: Vec<u64>)
        requires
            self.wf(),
        ensures
            forall|k: u64| #[trigger] r@.contains(k) <==> ids@.contains(k) && !self.servers@.contains_key(k),
    {
        let mut r: Vec<u64> = Vec::new();
        let mut i: usize = 0;
        while i < ids.len()
            invariant
                i <= ids@.len(),
                self.wf(),
                forall|k: u64| #[trigger] r@.contains(k) <==> ids@.subrange(0, i as int).contains(k) && !self.servers@.contains_key(k),
            decreases ids@.len() - i,
        {
            let k = ids[i];
            let ghost before = r@;
            let fresh = !self.servers.contains(k);
            if fresh {
                r.push(k);
            }
            assert(forall|q: u64| #[trigger] r@.contains(q) <==> before.contains(q) || (fresh && q == k)) by {
                assert forall|q: u64| #[trigger] r@.contains(q) implies before.contains(q) || (fresh && q == k) by {
                    let p = choose|p: int| 0 <= p < r@.len() && r@[p] == q;
                    if p < before.len() {
                        assert(before[p] == q);
                    }
                }
                assert forall|q: u64| before.contains(q) || (fresh && q == k) implies #[trigger] r@.contains(q) by {
                    if before.contains(q) {
                        let p = choose|p: int| 0 <= p < before.len() && before[p] == q;
                        assert(r@[p] == q);
                    } else {
                        assert(r@[before.len() as int] == q);
                    }
                }
            }
            let ghost s0 = ids@.subrange(0, i as int);
            let ghost s1 = ids@.subrange(0, i + 1);
            assert forall|q: u64| #[trigger] r@.contains(q) <==> s1.contains(q) && !self.servers@.contains_key(q) by {
                if s1.contains(q) {
                    let p = choose|p: int| 0 <= p < s1.len() && s1[p] == q;
                    if p < i {
                        assert(s0[p] == q);
                    }
                }
                if s0.contains(q) {
                    let p = choose|p: int| 0 <= p < s0.len() && s0[p] == q;
                    assert(s1[p] == q);
                }
                assert(s1[i as int] == k);
            }
            i = i + 1;
        }
        assert(ids@.subrange(0, ids@.len() as int) =~= ids@);
        r
    }

    /// The servers whose channels a refresh for `channel_id` fetches again
    /// once the servers in `fresh` were added: the others of `ids`, and only
    /// while the channel is still not a known text channel.
    pub fn servers_to_refresh(&self, ids: &Vec<u64>, fresh: &Vec<u64>, channel_id: u64) -> (r: Vec<u64>)
        requires
            self.wf(),
        ensures
            forall|k: u64| #[trigger] r@.contains(k) <==> !self.public_text_channels@.contains_key(channel_id)
                && ids@.contains(k) && !fresh@.contains(k),
    {
        let mut r: Vec<u64> = Vec::new();
        if self.public_text_channels.contains(channel_id) {
            return r;
        }
        let mut i: usize = 0;
        while i < ids.len()
            invariant
                i <= ids@.len(),
                forall|k: u64| #[trigger] r@.contains(k) <==> ids@.subrange(0, i as int).contains(k) && !fresh@.contains(k),
            decreases ids@.len() - i,
        {
            let k = ids[i];
            let ghost before = r@;
            let keep = !vec_contains(fresh, k);
            if keep {
                r.push(k);
            }
            let ghost s0 = ids@.subrange(0, i as int);
            let ghost s1 = ids@.subrange(0, i + 1);
            assert forall|q: u64| #[trigger] r@.contains(q) <==> before.contains(q) || (keep && q == k) by {
                if r@.contains(q) {
                    let p = choose|p: int| 0 <= p < r@.len() && r@[p] == q;
                    if p < before.len() {
                        assert(before[p] == q);
                    }
                }
                if before.contains(q) {
                    let p = choose|p: int| 0 <= p < before.len() && before[p] == q;
                    assert(r@[p] == q);
                }
                if keep && q == k {
                    assert(r@[before.len() as int] == q);
                }
            }
            assert forall|q: u64| #[trigger] s1.contains(q) <==> s0.contains(q) || q == k by {
                if s1.contains(q) {
                    let p = choose|p: int| 0 <= p < s1.len() && s1[p] == q;
                    if p < i {
                        assert(s0[p] == q);
                    }
                }
                if s0.contains(q) {
                    let p = choose|p: int| 0 <= p < s0.len() && s0[p] == q;
                    assert(s1[p] == q);
                }
                assert(s1[i as int] == k);
            }
            i = i + 1;
        }
        assert(ids@.subrange(0, ids@.len() as int) =~= ids@);
        r
    }

    /// Whether a message from this channel should cause a refresh of the
    /// server list.
    pub fn should_refresh(&self, channel_id: u64) -> (r: bool)
        requires
            self.wf(),
        ensures
            r == needs_refresh(*self, channel_id),
    {
        if self.public_text_channels.contains(channel_id) || self.private_channels.contains(channel_id) {
            return false;
        }
        let mut i: usize = 0;
        while i < self.unknown_channels.len()
            invariant
                i <= self.unknown_channels@.len(),
                forall|j: int| 0 <= j < i ==> self.unknown_channels@[j] != channel_id,
            decreases self.unknown_channels@.len() - i,
        {
            if self.unknown_channels[i] == channel_id {
                return false;
            }
            i = i + 1;
        }
        true
    }

    /// Remembers, once the refresh that a channel caused is over, that the
    /// channel is still unknown, so that it causes no other.
    pub fn finish_refresh(&mut self, channel_id: u64)
        requires
            old(self).wf(),
        ensures
            final(self).wf(),
            refresh_finished(*old(self), *final(self), channel_id),
    {
        if !self.public_text_channels.contains(channel_id) {
            let mut i: usize = 0;
            while i < self.unknown_channels.len()
                invariant
                    i <= self.unknown_channels@.len(),
                    self.wf(),
                    *self == *old(self),
                    !self.public_text_channels@.contains_key(channel_id),
                    forall|j: int| 0 <= j < i ==> self.unknown_channels@[j] != channel_id,
                decreases self.unknown_channels@.len() - i,
            {
                if self.unknown_channels[i] == channel_id {
                    assert(self.unknown_channels@.contains(channel_id));
                    return;
                }
                i = i + 1;
            }
            self.unknown_channels.push(channel_id);
        }
    }
}

fn vec_contains(v: &Vec<u64>, k: u64) -> (r: bool)
    ensures
        r == v@.contains(k),
{
    let mut i: usize = 0;
    while i < v.len()
        invariant
            i <= v@.len(),
            forall|j: int| 0 <= j < i ==> v@[j] != k,
        decreases v@.len() - i,
    {
        if v[i] == k {
            assert(v@[i as int] == k);
            return true;
        }
        i = i + 1;
    }
    false
}

} // verus!
