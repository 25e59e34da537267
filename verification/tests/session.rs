use strife::session::Client;
use twilight_model::channel::Channel;
use twilight_model::channel::ChannelType;
use twilight_model::gateway::event::Event;
use twilight_model::gateway::payload::incoming::ChannelCreate;
use twilight_model::gateway::payload::incoming::MessageDelete;
use twilight_model::id::Id;

fn channel(id: u64, name: &str, kind: ChannelType) -> Channel {
    Channel {
        application_id: None,
        applied_tags: None,
        available_tags: None,
        bitrate: None,
        default_auto_archive_duration: None,
        default_forum_layout: None,
        default_reaction_emoji: None,
        default_sort_order: None,
        default_thread_rate_limit_per_user: None,
        flags: None,
        guild_id: None,
        icon: None,
        id: Id::new(id),
        invitable: None,
        kind,
        last_message_id: None,
        last_pin_timestamp: None,
        managed: None,
        member: None,
        member_count: None,
        message_count: None,
        name: Some(name.to_string()),
        newly_created: None,
        nsfw: None,
        owner_id: None,
        parent_id: None,
        permission_overwrites: None,
        position: None,
        rate_limit_per_user: None,
        recipients: None,
        rtc_region: None,
        thread_metadata: None,
        topic: None,
        user_limit: None,
        video_quality_mode: None,
    }
}

fn channel_create(id: u64, name: &str) -> Event {
    Event::ChannelCreate(Box::new(ChannelCreate(channel(id, name, ChannelType::GuildText))))
}

fn message_delete(channel_id: u64, message_id: u64) -> Event {
    Event::MessageDelete(MessageDelete {
        channel_id: Id::new(channel_id),
        guild_id: None,
        id: Id::new(message_id),
    })
}

#[test]
fn fresh_session_has_no_damage_and_no_focus() {
    let mut client = Client::new();
    assert!(client.current_channel.is_none());
    assert!(!client.take_channel_cache_damage());
    assert!(!client.take_message_cache_damage());
}

#[test]
fn channel_event_damages_channel_aspects() {
    let mut client = Client::new();
    client.apply_event(&channel_create(5, "general"));
    assert!(client.damage.channel);
    assert!(client.damage.channel_search);
    assert!(!client.damage.message);
    assert!(client.take_channel_cache_damage());
    assert!(!client.take_channel_cache_damage());
}

#[test]
fn unfocused_message_event_never_damages_messages() {
    // A message event for a channel that is not the current focus never
    // sets the message flag.
    let mut client = Client::new();
    client.current_channel = Some(5);
    client.apply_event(&message_delete(6, 100));
    assert!(!client.take_message_cache_damage());

    let mut unfocused = Client::new();
    unfocused.apply_event(&message_delete(5, 100));
    assert!(!unfocused.take_message_cache_damage());
}

#[test]
fn focused_message_event_always_damages_messages() {
    let mut client = Client::new();
    client.current_channel = Some(5);
    client.apply_event(&message_delete(5, 100));
    assert!(client.take_message_cache_damage());
    assert!(!client.take_message_cache_damage());
}

#[test]
fn search_finds_channels_the_events_created() {
    let mut client = Client::new();
    client.apply_event(&channel_create(1, "general"));
    client.apply_event(&channel_create(2, "general-chat"));
    client.apply_event(&channel_create(3, "help"));
    let results = client.search_channel("gen");
    assert_eq!(
        results,
        vec![("general".to_string(), 1), ("general-chat".to_string(), 2)]
    );
    let results = client.search_channel("genral");
    assert!(results.contains(&("general".to_string(), 1)));
}

#[test]
fn consecutive_searches_rebuild_at_most_once() {
    // After the first search the channel-search flag is down, so the
    // second search cannot rebuild: new channels that arrived in the cache
    // without a channel event stay invisible until the next mark.
    let mut client = Client::new();
    client.apply_event(&channel_create(1, "general"));
    assert!(client.damage.channel_search);
    let first = client.search_channel("zzz-nomatch");
    assert!(!client.damage.channel_search);
    let second = client.search_channel("zzz-nomatch");
    assert!(!client.damage.channel_search);
    assert_eq!(first, second);
}

#[test]
fn rebuild_happens_again_after_new_channel_event() {
    let mut client = Client::new();
    client.apply_event(&channel_create(1, "general"));
    assert_eq!(client.search_channel("zzz-nomatch").len(), 1);
    client.apply_event(&channel_create(2, "help"));
    assert!(client.damage.channel_search);
    assert_eq!(client.search_channel("zzz-nomatch").len(), 2);
}

#[test]
fn voice_channels_stay_out_of_the_search_index() {
    let mut client = Client::new();
    client.apply_event(&channel_create(1, "general"));
    client.apply_event(&Event::ChannelCreate(Box::new(ChannelCreate(channel(
        2,
        "voice",
        ChannelType::GuildVoice,
    )))));
    let results = client.search_channel("zzz-nomatch");
    assert_eq!(results, vec![("general".to_string(), 1)]);
}
