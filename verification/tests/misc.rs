use strife::config::Config;
use strife::identify::android;
use strife::identify::linux;
use strife::span::Span;
use strife::span::TextStyle;

#[test]
fn android_identity_values() {
    let identity = android();
    assert_eq!(identity.version, "115.4 - Beta");
    assert_eq!(identity.build_number, "114104");
    assert_eq!(identity.device, "Pixel, coral");
    assert_eq!(identity.os_sdk_version, 31);
}

#[test]
fn linux_identity_values() {
    let identity = linux();
    assert_eq!(identity.os_version, "5.18.5");
}

#[test]
fn config_holds_the_credential() {
    let config = Config::new("example-token".to_string());
    assert_eq!(config.discord_key, "example-token");
}

#[test]
fn span_range_covers_offset_and_len() {
    let span = Span { offset: 4, len: 3, modifier: TextStyle { bold: true, italic: false } };
    assert_eq!(span.range(), 4..7);
}

#[test]
fn span_range_saturates() {
    let span = Span {
        offset: usize::MAX - 1,
        len: 5,
        modifier: TextStyle { bold: false, italic: false },
    };
    assert_eq!(span.range(), (usize::MAX - 1)..usize::MAX);
}
