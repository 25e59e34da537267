use strife::channel_map::ChannelMap;
use strife::channel_map::ChannelRecord;
use strife::channel_map::is_text_channel;

fn record(kind: u8, name: &str, id: u64) -> ChannelRecord {
    ChannelRecord { kind, name: Some(name.to_string()), id }
}

fn sample_map() -> ChannelMap {
    let mut map = ChannelMap::new();
    map.update(vec![
        record(0, "general", 1),
        record(0, "general-chat", 2),
        record(0, "help", 3),
    ]);
    map
}

#[test]
fn one_substitution_away_matches() {
    // "genral" is one edit from "general".
    let map = sample_map();
    let results = map.search("genral");
    assert!(results.contains(&("general".to_string(), 1)));
    assert!(!results.contains(&("help".to_string(), 3)));
}

#[test]
fn prefix_matches_but_not_others() {
    let map = sample_map();
    let results = map.search("gen");
    assert_eq!(
        results,
        vec![("general".to_string(), 1), ("general-chat".to_string(), 2)]
    );
}

#[test]
fn empty_result_falls_back_to_everything() {
    // "No match" degrades to "show everything", never to "show nothing".
    let map = sample_map();
    let results = map.search("zzz-nomatch");
    assert_eq!(
        results,
        vec![
            ("general".to_string(), 1),
            ("general-chat".to_string(), 2),
            ("help".to_string(), 3),
        ]
    );
}

#[test]
fn human_query_with_space_matches_hyphenated_name() {
    let map = sample_map();
    let results = map.search("general chat");
    assert!(results.contains(&("general-chat".to_string(), 2)));
}

#[test]
fn only_text_bearing_named_channels_enter_the_index() {
    // Kind 2 is a voice channel; a channel without a name is skipped.
    let mut map = ChannelMap::new();
    map.update(vec![
        record(0, "text", 1),
        record(2, "voice", 2),
        ChannelRecord { kind: 0, name: None, id: 3 },
        record(1, "direct", 4),
        record(3, "group", 5),
        record(11, "thread-pub", 6),
        record(12, "thread-priv", 7),
        record(4, "category", 8),
    ]);
    let all = map.search("zzz-nomatch");
    assert_eq!(
        all,
        vec![
            ("direct".to_string(), 4),
            ("group".to_string(), 5),
            ("text".to_string(), 1),
            ("thread-priv".to_string(), 7),
            ("thread-pub".to_string(), 6),
        ]
    );
}

#[test]
fn colliding_names_keep_the_later_entry() {
    let mut map = ChannelMap::new();
    map.update(vec![record(0, "general", 1), record(0, "general", 9)]);
    let all = map.search("zzz-nomatch");
    assert_eq!(all, vec![("general".to_string(), 9)]);
}

#[test]
fn update_replaces_the_whole_snapshot() {
    let mut map = sample_map();
    map.update(vec![record(0, "only", 42)]);
    let all = map.search("zzz-nomatch");
    assert_eq!(all, vec![("only".to_string(), 42)]);
}

#[test]
fn empty_index_returns_nothing() {
    let map = ChannelMap::new();
    assert!(map.search("anything").is_empty());
}

#[test]
fn long_query_is_handled() {
    // The longest query the search admits builds its automaton without
    // trouble.
    let map = sample_map();
    let long = "x".repeat(100);
    let results = map.search(&long);
    assert_eq!(results.len(), 3);
}

#[test]
fn hits_of_both_branches_come_in_index_order() {
    // Prefix hits and edit-distance hits interleave in one stream, in
    // lexicographic order, deduplicated by the union itself.
    let mut map = ChannelMap::new();
    map.update(vec![
        record(0, "xen", 4),
        record(0, "gens", 3),
        record(0, "agen", 1),
        record(0, "gen", 2),
    ]);
    let results = map.search("gen");
    assert_eq!(
        results,
        vec![
            ("agen".to_string(), 1),
            ("gen".to_string(), 2),
            ("gens".to_string(), 3),
            ("xen".to_string(), 4),
        ]
    );
}

#[test]
fn edits_are_counted_in_characters_not_bytes() {
    // "cafe" is one character substitution from "caf\u{e9}", though the
    // replacement character is two bytes long.
    let mut map = ChannelMap::new();
    map.update(vec![record(0, "caf\u{e9}", 1), record(0, "kaffee", 2)]);
    let results = map.search("cafe");
    assert_eq!(results, vec![("caf\u{e9}".to_string(), 1)]);
}

#[test]
fn sanitized_query_reaches_the_matcher() {
    let map = sample_map();
    let results = map.search(" -gen- ");
    assert_eq!(
        results,
        vec![("general".to_string(), 1), ("general-chat".to_string(), 2)]
    );
}

#[test]
fn long_wide_query_is_handled() {
    // Multi-byte characters build the widest per-character automaton
    // fragments; the longest admitted query of them still searches fine.
    let map = sample_map();
    let long = "\u{1F600}".repeat(100);
    let results = map.search(&long);
    assert_eq!(results.len(), 3);
}

#[test]
fn text_channel_kinds() {
    assert!(is_text_channel(0));
    assert!(is_text_channel(1));
    assert!(is_text_channel(3));
    assert!(is_text_channel(11));
    assert!(is_text_channel(12));
    assert!(!is_text_channel(2));
    assert!(!is_text_channel(4));
    assert!(!is_text_channel(13));
}
