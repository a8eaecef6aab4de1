use emojistats::arg::Type;
use emojistats::utility::{extract_first_word, extract_preceding_arg, remove_non_command_characters};

fn preceding(s: &str) -> (Option<(char, u64)>, &str) {
    let (arg, rest) = extract_preceding_arg(s);
    let arg = match arg {
        None => None,
        Some(Type::UserId(v)) => Some(('u', v)),
        Some(Type::RoleId(v)) => Some(('r', v)),
        Some(Type::ChannelId(v)) => Some(('c', v)),
        Some(Type::EmojiId(v)) => Some(('e', v)),
        Some(Type::Text(_)) => Some(('t', 0)),
    };
    (arg, rest)
}

#[test]
fn test_extract_preceding_arg() {
    assert_eq!(preceding("  abc  "), (None, "  abc  "));
    assert_eq!(preceding("  <@>  abc  "), (None, "  <@>  abc  "));
    assert_eq!(preceding("  <@123>  abc  "), (Some(('u', 123)), "  abc  "));
    assert_eq!(preceding("  <@!123>  abc  "), (Some(('u', 123)), "  abc  "));
    assert_eq!(preceding("  <@&123>  abc  "), (Some(('r', 123)), "  abc  "));
    assert_eq!(preceding("  <#123>  abc  "), (Some(('c', 123)), "  abc  "));
    assert_eq!(preceding("  <:emoji:123>  abc  "), (Some(('e', 123)), "  abc  "));
}

#[test]
fn test_remove_non_command_characters() {
    assert_eq!(remove_non_command_characters("abcd "), "abcd ");
    assert_eq!(remove_non_command_characters(".abcd "), "abcd ");
    assert_eq!(remove_non_command_characters(".-_abcd "), "-_abcd ");
    assert_eq!(remove_non_command_characters("   _abcd "), "_abcd ");
    assert_eq!(remove_non_command_characters("  - . _abcd "), "- . _abcd ");
}

#[test]
fn test_extract_first_word() {
    assert_eq!(extract_first_word(""), ("", ""));
    assert_eq!(extract_first_word(" \t "), ("", ""));
    assert_eq!(extract_first_word(" ab "), ("ab", ""));
    assert_eq!(extract_first_word(" ab \t "), ("ab", ""));
    assert_eq!(extract_first_word("ab cd"), ("ab", "cd"));
    assert_eq!(extract_first_word("ab  cd \t "), ("ab", "cd \t "));
}

#[test]
fn commas_and_unicode_spaces_are_skipped() {
    assert_eq!(remove_non_command_characters(", \u{3000}help"), "help");
    assert_eq!(extract_first_word("\u{a0}top\u{2003}rest"), ("top", "rest"));
}

#[test]
fn a_mention_needs_a_closing_bracket() {
    assert_eq!(preceding("<@123 abc"), (None, "<@123 abc"));
    assert_eq!(preceding("x <@123> abc"), (None, "x <@123> abc"));
}
