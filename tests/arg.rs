use emojistats::arg::{get_type, Type};

fn user(s: &str) -> Option<u64> {
    match get_type(s) {
        Type::UserId(v) => Some(v),
        _ => None,
    }
}

fn channel(s: &str) -> Option<u64> {
    match get_type(s) {
        Type::ChannelId(v) => Some(v),
        _ => None,
    }
}

fn role(s: &str) -> Option<u64> {
    match get_type(s) {
        Type::RoleId(v) => Some(v),
        _ => None,
    }
}

fn emoji(s: &str) -> Option<u64> {
    match get_type(s) {
        Type::EmojiId(v) => Some(v),
        _ => None,
    }
}

fn is_text(s: &str) -> bool {
    match get_type(s) {
        Type::Text(v) => v.as_str() == s,
        _ => false,
    }
}

#[test]
fn user_id() {
    assert_eq!(user("<@!1>"), Some(1));
    assert_eq!(user("<@!123>"), Some(123));
    assert_eq!(user("<@1>"), Some(1));
    assert_eq!(user("<@123>"), Some(123));
}

#[test]
fn not_user_id() {
    assert!(is_text("<!123>"));
    assert!(is_text("<!#123>"));
    assert!(is_text("<@!>"));
    assert!(is_text("<@!.>"));
    assert!(is_text("<@>"));
    assert!(is_text("<@1.>"));
    assert!(is_text("<@a>"));
    assert!(is_text("<@1"));
}

#[test]
fn channel_id() {
    assert_eq!(channel("<#1>"), Some(1));
    assert_eq!(channel("<#123>"), Some(123));
}

#[test]
fn not_channel_id() {
    assert!(is_text("<#>"));
    assert!(is_text("<#1.>"));
    assert!(is_text("<#1.0>"));
    assert!(is_text("<#a>"));
    assert!(is_text("<#12"));
}

#[test]
fn role_id() {
    assert_eq!(role("<@&1>"), Some(1));
    assert_eq!(role("<@&123>"), Some(123));
}

#[test]
fn not_role_id() {
    assert!(is_text("<@&>"));
    assert!(is_text("<@&1.>"));
    assert!(is_text("<@&1.0>"));
    assert!(is_text("<@&a>"));
}

#[test]
fn custom_emoji() {
    assert_eq!(emoji("<:a:1>"), Some(1));
    assert_eq!(emoji("<:abc:123>"), Some(123));
}

#[test]
fn not_custom_emoji() {
    assert!(is_text("::"));
    assert!(is_text(":a:"));
    assert!(is_text(":a:."));
    assert!(is_text("::1"));
    assert!(is_text("::1."));
    assert!(is_text(":a:1."));
}

#[test]
fn text() {
    assert!(is_text(""));
    assert!(is_text("some text"));
}

#[test]
fn every_bracket_form_gives_its_reference() {
    assert_eq!(user("<@!123>"), Some(123));
    assert_eq!(role("<@&7>"), Some(7));
    assert_eq!(user("<@42>"), Some(42));
    assert_eq!(channel("<#9>"), Some(9));
    assert_eq!(emoji("<:abc:123>"), Some(123));
    assert!(is_text("<@&1.>"));
    assert!(is_text(""));
}

#[test]
fn ids_at_the_edge_of_u64() {
    assert_eq!(user("<@18446744073709551615>"), Some(u64::MAX));
    assert!(is_text("<@18446744073709551616>"));
    assert!(is_text("<#99999999999999999999>"));
}

#[test]
fn signs_and_missing_colons_are_text() {
    assert!(is_text("<@+1>"));
    assert!(is_text("<:abc>"));
    assert!(is_text("<:abc:>"));
    assert!(is_text("<:é:1"));
    assert_eq!(emoji("<:é:5>"), Some(5));
    assert_eq!(emoji("<::1:2>"), Some(2));
}
