//! The roster and the store together, driven by the events of the chat
//! platform one at a time.

use vstd::prelude::*;
use crate::database::{channel_row, reconciled, ChannelRow, Database};
use crate::model::CustomEmoji;
use crate::recorder::record_effect;
use crate::roster::{with_channels, BasicServerInfo, Channel, ChannelKind, PublicChannel, Roster};

verus! {

pub struct Workspace {
    pub roster: Roster,
    pub db: Database,
}

/// The server of a channel, by the roster's text channels.
pub open spec fn server_of(r: Roster, channel_id: u64) -> Option<u64> {
    if r.public_text_channels@.contains_key(channel_id) {
        Some(r.public_text_channels@[channel_id].server_id)
    } else {
        None
    }
}

proof fn lemma_channel_row_has(chs: Seq<ChannelRow>, id: u64, k: int)
    requires
        0 <= k,
        channel_row(chs, id, k) >= 0,
    ensures
        k <= channel_row(chs, id, k) < chs.len(),
        chs[channel_row(chs, id, k)].id == id,
    decreases chs.len() - k,
{
    if k < chs.len() && chs[k].id != id {
        lemma_channel_row_has(chs, id, k + 1);
    }
}

/// The channel `id` has a row in `chs`.
pub open spec fn has_channel_row(chs: Seq<ChannelRow>, id: u64) -> bool {
    exists|j: int| 0 <= j < chs.len() && (#[trigger] chs[j]).id == id
}

impl Workspace {
    pub open spec fn wf(&self) -> bool {
        self.roster.wf() && self.db.wf()
    }

    pub fn new() -> (r: Workspace)
        ensures
            r.wf(),
    {
        Workspace { roster: Roster::new(), db: Database::new() }
    }

    /// Adds a channel to the store's channel table, which keeps every channel
    /// ever seen.
    fn store_channel(&mut self, c: &PublicChannel)
        requires
            old(self).wf(),
        ensures
            final(self).wf(),
            final(self).roster == old(self).roster,
            final(self).db.emoji == old(self).db.emoji,
            final(self).db.usage == old(self).db.usage,
            final(self).db.messages == old(self).db.messages,
            final(self).db.reactions == old(self).db.reactions,
            has_channel_row(final(self).db.channels@, c.id),
            forall|id: u64| has_channel_row(old(self).db.channels@, id) ==> #[trigger] has_channel_row(final(self).db.channels@, id),
    {
        let ghost before = self.db.channels@;
        self.db.add_channel(c.id, c.server_id, c.name.clone());
        proof {
            let after = self.db.channels@;
            let k = channel_row(before, c.id, 0);
            if k >= 0 {
                lemma_channel_row_has(before, c.id, 0);
                assert(after[k].id == c.id);
                assert forall|id: u64| has_channel_row(before, id) implies #[trigger] has_channel_row(after, id) by {
                    let j = choose|j: int| 0 <= j < before.len() && (#[trigger] before[j]).id == id;
                    assert(after[j].id == id);
                }
            } else {
                assert(after[before.len() as int].id == c.id);
                assert forall|id: u64| has_channel_row(before, id) implies #[trigger] has_channel_row(after, id) by {
                    let j = choose|j: int| 0 <= j < before.len() && (#[trigger] before[j]).id == id;
                    assert(after[j].id == id);
                }
            }
        }
    }

    /// A server is seen: it is added or brought up to date with its text
    /// channels, and its custom emoji are reconciled with `emoji`, its full
    /// list.
    pub fn on_server_seen(&mut self, server: BasicServerInfo, channels: Vec<PublicChannel>, emoji: Vec<CustomEmoji>)
        requires
            old(self).wf(),
            forall|j: int| 0 <= j < emoji@.len() ==> (#[trigger] emoji@[j]).wf(),
        ensures
            final(self).wf(),
            final(self).roster.servers@ == old(self).roster.servers@.insert(server.id, server),
            final(self).roster.public_text_channels@ == with_channels(old(self).roster.public_text_channels@, channels@),
            final(self).roster.private_channels@ == old(self).roster.private_channels@,
            final(self).roster.unknown_channels@ == old(self).roster.unknown_channels@,
            reconciled(old(self).db.emoji@, final(self).db.emoji@, emoji@, server.id),
            forall|j: int| 0 <= j < channels@.len() && (#[trigger] channels@[j]).kind is Text
                ==> has_channel_row(final(self).db.channels@, channels@[j].id),
            final(self).db.usage == old(self).db.usage,
            final(self).db.messages == old(self).db.messages,
            final(self).db.reactions == old(self).db.reactions,
    {
        self.db.update_server_emoji_list(&emoji, server.id);
        self.store_text_channels(&channels);
        self.roster.add_server_info(server, channels);
    }

    /// A channel is created or updated: the roster takes it, and a text
    /// channel also gets a row in the store's channel table.
    pub fn on_channel(&mut self, channel: Channel)
        requires
            old(self).wf(),
        ensures
            final(self).wf(),
            final(self).roster.servers@ == old(self).roster.servers@,
            final(self).roster.unknown_channels@ == old(self).roster.unknown_channels@,
            match channel {
                Channel::Public(c) => {
                    &&& final(self).roster.private_channels@ == old(self).roster.private_channels@
                    &&& final(self).roster.public_text_channels@ == if c.kind is Text {
                        old(self).roster.public_text_channels@.insert(c.id, c)
                    } else {
                        old(self).roster.public_text_channels@
                    }
                    &&& c.kind is Text ==> has_channel_row(final(self).db.channels@, c.id)
                },
                Channel::Private(c) => {
                    &&& final(self).roster.private_channels@ == old(self).roster.private_channels@.insert(c.id, c)
                    &&& final(self).roster.public_text_channels@ == old(self).roster.public_text_channels@
                },
                Channel::Group(_) => {
                    &&& final(self).roster.private_channels@ == old(self).roster.private_channels@
                    &&& final(self).roster.public_text_channels@ == old(self).roster.public_text_channels@
                },
            },
            final(self).db.emoji == old(self).db.emoji,
            final(self).db.usage == old(self).db.usage,
            final(self).db.messages == old(self).db.messages,
            final(self).db.reactions == old(self).db.reactions,
    {
        if let Channel::Public(c) = &channel {
            if let ChannelKind::Text = c.kind {
                self.store_channel(c);
            }
        }
        self.roster.add_channel(channel);
    }

    /// A server's channels are fetched: the server is added or brought up to
    /// date with them, and its text channels get rows in the store.
    pub fn on_server_channels(&mut self, server: BasicServerInfo, channels: Vec<PublicChannel>)
        requires
            old(self).wf(),
        ensures
            final(self).wf(),
            final(self).roster.servers@ == old(self).roster.servers@.insert(server.id, server),
            final(self).roster.public_text_channels@ == with_channels(old(self).roster.public_text_channels@, channels@),
            final(self).roster.private_channels@ == old(self).roster.private_channels@,
            final(self).roster.unknown_channels@ == old(self).roster.unknown_channels@,
            forall|j: int| 0 <= j < channels@.len() && (#[trigger] channels@[j]).kind is Text
                ==> has_channel_row(final(self).db.channels@, channels@[j].id),
            final(self).db.emoji == old(self).db.emoji,
            final(self).db.usage == old(self).db.usage,
            final(self).db.messages == old(self).db.messages,
            final(self).db.reactions == old(self).db.reactions,
    {
        self.store_text_channels(&channels);
        self.roster.add_server_info(server, channels);
    }

    fn store_text_channels(&mut self, channels: &Vec<PublicChannel>)
        requires
            old(self).wf(),
        ensures
            final(self).wf(),
            final(self).roster == old(self).roster,
            forall|j: int| 0 <= j < channels@.len() && (#[trigger] channels@[j]).kind is Text
                ==> has_channel_row(final(self).db.channels@, channels@[j].id),
            final(self).db.emoji == old(self).db.emoji,
            final(self).db.usage == old(self).db.usage,
            final(self).db.messages == old(self).db.messages,
            final(self).db.reactions == old(self).db.reactions,
    {
        let mut i: usize = 0;
        while i < channels.len()
            invariant
                i <= channels@.len(),
                self.wf(),
                self.roster == old(self).roster,
                self.db.emoji == old(self).db.emoji,
                self.db.usage == old(self).db.usage,
                self.db.messages == old(self).db.messages,
                self.db.reactions == old(self).db.reactions,
                forall|j: int| 0 <= j < i && (#[trigger] channels@[j]).kind is Text
                    ==> has_channel_row(self.db.channels@, channels@[j].id),
            decreases channels@.len() - i,
        {
            let c = &channels[i];
            if let ChannelKind::Text = c.kind {
                let ghost before = self.db.channels@;
                self.store_channel(c);
                assert forall|j: int| 0 <= j < i + 1 && (#[trigger] channels@[j]).kind is Text
                    implies has_channel_row(self.db.channels@, channels@[j].id) by {
                    if j < i {
                        assert(has_channel_row(before, channels@[j].id));
                    }
                }
            }
            i = i + 1;
        }
    }

    /// A message arrives: its emoji are recorded, counting the custom emoji
    /// of the server of its channel, unless the message was recorded before.
    pub fn on_message(&mut self, message_id: u64, channel_id: u64, author_id: u64, body: &str)
        requires
            old(self).wf(),
        ensures
            final(self).wf(),
            final(self).roster == old(self).roster,
            record_effect(old(self).db, final(self).db, message_id, channel_id, author_id, server_of(old(self).roster, channel_id), body@),
    {
        let server = match self.roster.public_text_channels.get(channel_id) {
            Some(c) => Some(c.server_id),
            None => None,
        };
        self.db.record_message(message_id, channel_id, author_id, server, body);
    }
}

} // verus!
