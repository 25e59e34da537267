use strife::damage::Aspect;
use strife::damage::CacheDamage;

#[test]
fn take_is_false_on_fresh_tracker() {
    let mut damage = CacheDamage::empty();
    assert!(!damage.take(Aspect::Message));
    assert!(!damage.take(Aspect::Channel));
}

#[test]
fn mark_twice_equals_mark_once() {
    // Marking is idempotent: a second mark before a take changes nothing.
    let mut once = CacheDamage::empty();
    once.mark(Aspect::ChannelSearch);
    let mut twice = CacheDamage::empty();
    twice.mark(Aspect::ChannelSearch);
    twice.mark(Aspect::ChannelSearch);
    assert_eq!(once, twice);
}

#[test]
fn take_consumes_exactly_once() {
    // After a mark, take reads true exactly once, then false until the
    // next mark.
    let mut damage = CacheDamage::empty();
    damage.mark(Aspect::Message);
    damage.mark(Aspect::Message);
    assert!(damage.take(Aspect::Message));
    assert!(!damage.take(Aspect::Message));
    damage.mark(Aspect::Message);
    assert!(damage.take(Aspect::Message));
}

#[test]
fn aspects_are_independent() {
    let mut damage = CacheDamage::empty();
    damage.mark(Aspect::Channel);
    assert!(!damage.take(Aspect::Message));
    assert!(!damage.take(Aspect::Guild));
    assert!(!damage.take(Aspect::User));
    assert!(!damage.take(Aspect::ChannelSearch));
    assert!(damage.take(Aspect::Channel));
}
