//! Session orchestrator: owns the cache, the current focus, the damage
//! tracker and the fuzzy name index; applies each inbound protocol event to
//! the cache and updates damage flags by event type; answers channel
//! searches, rebuilding the index only when its damage flag says it may be
//! stale. The asynchronous event source and the outbound transport live
//! with the caller, which hands each received event in.

use twilight_cache_inmemory::InMemoryCache;
use twilight_model::gateway::event::Event;
use vstd::prelude::*;

use crate::channel_map::pairs_view;
use crate::channel_map::spec_search;
use crate::channel_map::ChannelMap;
use crate::channel_map::ChannelRecord;
use crate::damage::Aspect;
use crate::damage::CacheDamage;

verus! {

#[verifier::external_type_specification]
#[verifier::external_body]
pub struct ExInMemoryCache(InMemoryCache);

#[verifier::external_type_specification]
#[verifier::external_body]
pub struct ExEvent(Event);

/// What the damage table reads of one protocol event: its type, and the
/// channel it affects.
#[derive(Clone, Copy, PartialEq, Eq, Structural, Debug)]
pub enum CacheEvent {
    ChannelCreate(u64),
    ChannelDelete(u64),
    ChannelUpdate(u64),
    MessageCreate(u64),
    MessageDelete(u64),
    MessageDeleteBulk(u64),
    MessageUpdate(u64),
    Other,
}

/// Relies on `InMemoryCache::new`: a cache holding nothing.
#[verifier::external_body]
fn new_cache() -> (cache: InMemoryCache) {
    InMemoryCache::new()
}

/// Relies on `InMemoryCache::update`, which applies one protocol event to
/// the cached object graph through interior mutability.
#[verifier::external_body]
fn cache_apply(cache: &InMemoryCache, event: &Event) {
    cache.update(event);
}

/// The classification of one protocol event — which of the cache-relevant
/// variants it is, and the identifier of the channel it affects. It is a
/// pure function of the event alone.
pub uninterp spec fn event_class(e: Event) -> CacheEvent;

/// Relies on the payload layout of the channel and message events: each
/// arm only tells the event variants apart and moves the identifier of the
/// affected channel out. The result depends on the event alone, so it is
/// named `event_class`.
#[verifier::external_body]
fn classify_event(event: &Event) -> (ev: CacheEvent)
    ensures
        ev == event_class(*event),
{
    match event {
        Event::ChannelCreate(c) => CacheEvent::ChannelCreate(c.0.id.get()),
        Event::ChannelDelete(c) => CacheEvent::ChannelDelete(c.0.id.get()),
        Event::ChannelUpdate(c) => CacheEvent::ChannelUpdate(c.0.id.get()),
        Event::MessageCreate(m) => CacheEvent::MessageCreate(m.0.channel_id.get()),
        Event::MessageDelete(m) => CacheEvent::MessageDelete(m.channel_id.get()),
        Event::MessageDeleteBulk(m) => CacheEvent::MessageDeleteBulk(m.channel_id.get()),
        Event::MessageUpdate(m) => CacheEvent::MessageUpdate(m.channel_id.get()),
        _ => CacheEvent::Other,
    }
}

/// Relies on `InMemoryCacheIter::channels`: walks the cached channel
/// collection and copies out of each channel its kind code (the protocol's
/// own numbering, via the kind's conversion to `u8`), its name and its
/// identifier. The walk order of the underlying concurrent map is
/// arbitrary, so nothing is promised of the order or contents.
#[verifier::external_body]
fn cache_channel_records(cache: &InMemoryCache) -> (records: Vec<ChannelRecord>) {
    cache.iter().channels().map(
        |c| ChannelRecord { kind: c.kind.into(), name: c.name.clone(), id: c.id.get() },
    ).collect()
}

/// The damage table: channel events mark the channel and channel-search
/// aspects; message events mark the message aspect only when the affected
/// channel is the current focus; other events mark nothing.
pub open spec fn damage_after(d: CacheDamage, focus: Option<u64>, ev: CacheEvent) -> CacheDamage {
    match ev {
        CacheEvent::ChannelCreate(_) | CacheEvent::ChannelDelete(_) | CacheEvent::ChannelUpdate(
            _,
        ) => d.spec_mark(Aspect::Channel).spec_mark(Aspect::ChannelSearch),
        CacheEvent::MessageCreate(c) | CacheEvent::MessageDelete(c)
            | CacheEvent::MessageDeleteBulk(c) | CacheEvent::MessageUpdate(c) => if focus == Some(
            c,
        ) {
            d.spec_mark(Aspect::Message)
        } else {
            d
        },
        CacheEvent::Other => d,
    }
}

/// The session: cache, current focus, damage flags, fuzzy name index.
pub struct Client {
    pub cache: InMemoryCache,
    /// The channel the caller is currently viewing, if any; set directly by
    /// the caller, never by the protocol.
    pub current_channel: Option<u64>,
    pub channel_map: ChannelMap,
    pub damage: CacheDamage,
}

impl Client {
    /// The index is always consistent with itself.
    pub open spec fn inv(&self) -> bool {
        self.channel_map.wf()
    }

    /// A fresh session: empty cache, no focus, no damage, empty index.
    pub fn new() -> (client: Client)
        ensures
            client.current_channel is None,
            client.damage == CacheDamage::spec_empty(),
            client.channel_map@ == Seq::<(Seq<char>, u64)>::empty(),
            client.inv(),
    {
        Client {
            cache: new_cache(),
            current_channel: None,
            channel_map: ChannelMap::new(),
            damage: CacheDamage::empty(),
        }
    }

    /// Apply one inbound protocol event: update the cache, then the damage
    /// flags per the event-type table, keyed by the event's classification.
    /// Returns that classification. The caller owns the suspension on the
    /// event source; an event that never arrives never reaches this
    /// function, and a source failure is returned to the caller with cache
    /// and damage untouched.
    pub fn apply_event(&mut self, event: &Event) -> (ev: CacheEvent)
        ensures
            ev == event_class(*event),
            final(self).cache == old(self).cache,
            final(self).current_channel == old(self).current_channel,
            final(self).channel_map == old(self).channel_map,
            final(self).damage == damage_after(
                old(self).damage,
                old(self).current_channel,
                event_class(*event),
            ),
    {
        let ev = classify_event(event);
        cache_apply(&self.cache, event);
        match ev {
            CacheEvent::ChannelCreate(channel_id) => self.update_channel_damage(channel_id),
            CacheEvent::ChannelDelete(channel_id) => self.update_channel_damage(channel_id),
            CacheEvent::ChannelUpdate(channel_id) => self.update_channel_damage(channel_id),
            CacheEvent::MessageCreate(channel_id) => self.update_message_damage(channel_id),
            CacheEvent::MessageDelete(channel_id) => self.update_message_damage(channel_id),
            CacheEvent::MessageDeleteBulk(channel_id) => self.update_message_damage(channel_id),
            CacheEvent::MessageUpdate(channel_id) => self.update_message_damage(channel_id),
            CacheEvent::Other => {},
        }
        ev
    }

    /// A channel-affecting event damages the channel list and the
    /// channel-search index, whichever channel it concerns.
    fn update_channel_damage(&mut self, _channel_id: u64)
        ensures
            final(self).damage == old(self).damage.spec_mark(Aspect::Channel).spec_mark(
                Aspect::ChannelSearch,
            ),
            final(self).cache == old(self).cache,
            final(self).current_channel == old(self).current_channel,
            final(self).channel_map == old(self).channel_map,
    {
        self.damage.mark(Aspect::Channel);
        self.damage.mark(Aspect::ChannelSearch);
    }

    /// A message event damages the message view only when it concerns the
    /// currently focused channel; damage to unobserved channels is not
    /// tracked, since no view depends on it.
    fn update_message_damage(&mut self, channel_id: u64)
        ensures
            final(self).damage == if old(self).current_channel == Some(channel_id) {
                old(self).damage.spec_mark(Aspect::Message)
            } else {
                old(self).damage
            },
            final(self).cache == old(self).cache,
            final(self).current_channel == old(self).current_channel,
            final(self).channel_map == old(self).channel_map,
    {
        match self.current_channel {
            Some(current) => {
                if current == channel_id {
                    self.damage.mark(Aspect::Message);
                }
            },
            None => {},
        }
    }

    /// Read and clear the flag of one aspect in a single step.
    fn take_damage(&mut self, aspect: Aspect) -> (was: bool)
        ensures
            was == old(self).damage.spec_get(aspect),
            final(self).damage == old(self).damage.spec_clear(aspect),
            final(self).cache == old(self).cache,
            final(self).current_channel == old(self).current_channel,
            final(self).channel_map == old(self).channel_map,
    {
        self.damage.take(aspect)
    }

    /// Whether the channel cache changed since this was last asked.
    pub fn take_channel_cache_damage(&mut self) -> (was: bool)
        ensures
            was == old(self).damage.spec_get(Aspect::Channel),
            final(self).damage == old(self).damage.spec_clear(Aspect::Channel),
            final(self).cache == old(self).cache,
            final(self).current_channel == old(self).current_channel,
            final(self).channel_map == old(self).channel_map,
    {
        self.take_damage(Aspect::Channel)
    }

    /// Whether the focused channel's messages changed since this was last
    /// asked.
    pub fn take_message_cache_damage(&mut self) -> (was: bool)
        ensures
            was == old(self).damage.spec_get(Aspect::Message),
            final(self).damage == old(self).damage.spec_clear(Aspect::Message),
            final(self).cache == old(self).cache,
            final(self).current_channel == old(self).current_channel,
            final(self).channel_map == old(self).channel_map,
    {
        self.take_damage(Aspect::Message)
    }

    /// Fuzzy search for a channel. When the channel-search damage flag is
    /// set, the index is first rebuilt from the cache's current channel
    /// collection and the flag cleared; the search then runs against the
    /// index, which from here on is consistent whether or not it was just
    /// rebuilt. The length bound is a machine limit of the edit-distance
    /// automaton's construction, not a rule of the session layer; a caller
    /// with longer input shortens it first.
    pub fn search_channel(&mut self, query: &str) -> (results: Vec<(String, u64)>)
        requires
            old(self).inv(),
            query@.len() <= 100,
        ensures
            final(self).inv(),
            search_step(*old(self), *final(self)),
            pairs_view(results@) == spec_search(final(self).channel_map@, query@),
    {
        if self.take_damage(Aspect::ChannelSearch) {
            let records = cache_channel_records(&self.cache);
            self.channel_map.update(records);
        }
        self.channel_map.search(query)
    }
}

/// How one `search_channel` call relates the session state after it to the
/// state before it: the search flag is consumed, focus and cache stand, and
/// without prior search damage the index is left untouched.
pub open spec fn search_step(pre: Client, post: Client) -> bool {
    &&& post.cache == pre.cache
    &&& post.current_channel == pre.current_channel
    &&& post.damage == pre.damage.spec_clear(Aspect::ChannelSearch)
    &&& (!pre.damage.spec_get(Aspect::ChannelSearch) ==> post.channel_map == pre.channel_map)
}

/// Focused-channel gating: a message event for a channel that is not the
/// current focus changes no damage flag — in particular it never sets the
/// message flag — while the same event for the focused channel always sets
/// it.
pub proof fn lemma_focused_channel_gating(
    d: CacheDamage,
    focus: Option<u64>,
    ev: CacheEvent,
    channel_id: u64,
)
    requires
        ev == CacheEvent::MessageCreate(channel_id) || ev == CacheEvent::MessageDelete(channel_id)
            || ev == CacheEvent::MessageDeleteBulk(channel_id) || ev == CacheEvent::MessageUpdate(
            channel_id,
        ),
    ensures
        focus != Some(channel_id) ==> damage_after(d, focus, ev) == d,
        focus == Some(channel_id) ==> damage_after(d, focus, ev) == d.spec_mark(Aspect::Message),
{
}

/// Rebuild gating: across two consecutive searches with no channel-
/// affecting event between them, at most one rebuild happens — the first
/// search leaves the search flag down, so the second cannot touch the
/// index.
pub proof fn lemma_rebuild_gating(s0: Client, s1: Client, s2: Client)
    requires
        search_step(s0, s1),
        search_step(s1, s2),
    ensures
        s2.channel_map == s1.channel_map,
{
}

} // verus!
