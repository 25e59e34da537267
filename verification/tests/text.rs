use strife::text::sanitize_text_channel_name;

#[test]
fn spaces_become_hyphens() {
    assert_eq!(sanitize_text_channel_name("general chat"), "general-chat");
}

#[test]
fn outer_whitespace_and_hyphens_are_trimmed() {
    assert_eq!(sanitize_text_channel_name(" -general- "), "general");
}

#[test]
fn plain_name_is_unchanged() {
    assert_eq!(sanitize_text_channel_name("help"), "help");
}

#[test]
fn empty_and_all_trimmed_queries() {
    assert_eq!(sanitize_text_channel_name(""), "");
    assert_eq!(sanitize_text_channel_name("   "), "");
    assert_eq!(sanitize_text_channel_name("---"), "");
    assert_eq!(sanitize_text_channel_name(" - - "), "-");
}

#[test]
fn whitespace_is_trimmed_before_hyphens() {
    // Hyphens are trimmed only once the whitespace around them is gone,
    // and spaces left inside still become hyphens.
    assert_eq!(sanitize_text_channel_name("- general -"), "-general-");
    assert_eq!(sanitize_text_channel_name("\t-rust help-\n"), "rust-help");
}

#[test]
fn interior_hyphens_stay() {
    assert_eq!(sanitize_text_channel_name("general-chat"), "general-chat");
    assert_eq!(sanitize_text_channel_name("a b-c d"), "a-b-c-d");
}
