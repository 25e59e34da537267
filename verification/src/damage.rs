//! Damage tracking: one boolean flag per cache aspect that has an observer.
//!
//! A flag records "a derived view of this aspect may be stale". The event
//! path marks flags; the view or index that depends on an aspect consumes
//! its flag with `take`, which reads and clears in one step. Marking is
//! idempotent and consuming is destructive.

use vstd::prelude::*;

verus! {

/// A cache aspect whose dependent view tracks staleness.
#[derive(Clone, Copy, PartialEq, Eq, Structural, Debug)]
pub enum Aspect {
    Message,
    Channel,
    ChannelSearch,
    Guild,
    User,
}

/// The set of damage flags, one per aspect.
#[derive(Clone, Copy, PartialEq, Eq, Structural, Debug)]
pub struct CacheDamage {
    pub message: bool,
    pub channel: bool,
    pub channel_search: bool,
    pub guild: bool,
    pub user: bool,
}

impl CacheDamage {
    /// The flag for one aspect.
    pub open spec fn spec_get(self, aspect: Aspect) -> bool {
        match aspect {
            Aspect::Message => self.message,
            Aspect::Channel => self.channel,
            Aspect::ChannelSearch => self.channel_search,
            Aspect::Guild => self.guild,
            Aspect::User => self.user,
        }
    }

    /// The flag set with one aspect raised.
    pub open spec fn spec_mark(self, aspect: Aspect) -> CacheDamage {
        match aspect {
            Aspect::Message => CacheDamage { message: true, ..self },
            Aspect::Channel => CacheDamage { channel: true, ..self },
            Aspect::ChannelSearch => CacheDamage { channel_search: true, ..self },
            Aspect::Guild => CacheDamage { guild: true, ..self },
            Aspect::User => CacheDamage { user: true, ..self },
        }
    }

    /// The flag set with one aspect lowered.
    pub open spec fn spec_clear(self, aspect: Aspect) -> CacheDamage {
        match aspect {
            Aspect::Message => CacheDamage { message: false, ..self },
            Aspect::Channel => CacheDamage { channel: false, ..self },
            Aspect::ChannelSearch => CacheDamage { channel_search: false, ..self },
            Aspect::Guild => CacheDamage { guild: false, ..self },
            Aspect::User => CacheDamage { user: false, ..self },
        }
    }

    /// No aspect is damaged.
    pub open spec fn spec_empty() -> CacheDamage {
        CacheDamage { message: false, channel: false, channel_search: false, guild: false, user: false }
    }

    /// A fresh tracker with every flag down.
    pub fn empty() -> (d: CacheDamage)
        ensures
            d == CacheDamage::spec_empty(),
    {
        CacheDamage { message: false, channel: false, channel_search: false, guild: false, user: false }
    }

    /// Raise the flag of one aspect. Idempotent: a second `mark` of the
    /// same aspect before a `take` changes nothing.
    pub fn mark(&mut self, aspect: Aspect)
        ensures
            *final(self) == old(self).spec_mark(aspect),
    {
        match aspect {
            Aspect::Message => self.message = true,
            Aspect::Channel => self.channel = true,
            Aspect::ChannelSearch => self.channel_search = true,
            Aspect::Guild => self.guild = true,
            Aspect::User => self.user = true,
        }
    }

    /// Read and clear the flag of one aspect in a single step.
    pub fn take(&mut self, aspect: Aspect) -> (was: bool)
        ensures
            was == old(self).spec_get(aspect),
            *final(self) == old(self).spec_clear(aspect),
    {
        let was = match aspect {
            Aspect::Message => self.message,
            Aspect::Channel => self.channel,
            Aspect::ChannelSearch => self.channel_search,
            Aspect::Guild => self.guild,
            Aspect::User => self.user,
        };
        match aspect {
            Aspect::Message => self.message = false,
            Aspect::Channel => self.channel = false,
            Aspect::ChannelSearch => self.channel_search = false,
            Aspect::Guild => self.guild = false,
            Aspect::User => self.user = false,
        }
        was
    }
}

/// Marking an aspect twice before a `take` is the same as marking it once.
pub proof fn lemma_mark_idempotent(d: CacheDamage, aspect: Aspect)
    ensures
        d.spec_mark(aspect).spec_mark(aspect) == d.spec_mark(aspect),
{
}

/// Immediately after a `mark`, a `take` of that aspect reads true and lowers
/// the flag, so a second `take` before the next `mark` reads false.
pub proof fn lemma_take_consumes(d: CacheDamage, aspect: Aspect)
    ensures
        d.spec_mark(aspect).spec_get(aspect),
        !d.spec_mark(aspect).spec_clear(aspect).spec_get(aspect),
{
}

/// Marking one aspect leaves every other aspect's flag as it was.
pub proof fn lemma_mark_frame(d: CacheDamage, marked: Aspect, other: Aspect)
    requires
        marked != other,
    ensures
        d.spec_mark(marked).spec_get(other) == d.spec_get(other),
{
}

} // verus!
