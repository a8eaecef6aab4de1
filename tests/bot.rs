use emojistats::bot::{auth_outcome, bot_info_text, bot_info_text_from, emoji_usage_reply, uses_header, AuthOutcome, BotError, ReactionEmoji};
use emojistats::database::Database;
use emojistats::model::{CustomEmoji, Emoji};

#[test]
fn exit_codes() {
    assert_eq!(BotError::FailedToAuthenticate.exit_code(), 101);
    assert_eq!(BotError::FailedToConnect.exit_code(), 102);
}

#[test]
fn authentication_outcomes() {
    assert!(matches!(auth_outcome(true, false, "", "pw"), AuthOutcome::AlreadyAuthenticated));
    assert!(matches!(auth_outcome(false, false, "pw", "pw"), AuthOutcome::UsePrivateChannel));
    assert!(matches!(auth_outcome(false, true, "", "pw"), AuthOutcome::PasswordMissing));
    assert!(matches!(auth_outcome(false, true, "pw", "pw"), AuthOutcome::Authenticated));
    assert!(matches!(auth_outcome(false, true, "px", "pw"), AuthOutcome::Refused));
}

#[test]
fn headers_name_the_total() {
    assert_eq!(uses_header("Top Emoji", 1), "Top Emoji (1 total use)");
    assert_eq!(uses_header("Top Emoji", 0), "Top Emoji (0 total uses)");
    assert_eq!(uses_header("Top Reaction Emoji", 25), "Top Reaction Emoji (25 total uses)");
}

#[test]
fn replies_about_one_emoji() {
    assert_eq!(emoji_usage_reply("🎉", Some(3)), "🎉 has been used 3 times.");
    assert_eq!(emoji_usage_reply("🎉", Some(1)), "🎉 has been used 1 time.");
    assert_eq!(emoji_usage_reply("🎉", Some(0)), "I've never seen anyone use 🎉.");
    assert_eq!(emoji_usage_reply("🎉", None), "I've never seen anyone use 🎉.");
}

#[test]
fn reactions_outside_text_channels_or_with_unknown_emoji_are_ignored() {
    let mut db = Database::new();
    db.update_server_emoji_list(&vec![CustomEmoji::new(1, 10, "fire".to_string(), false)], 1);
    db.add_emoji(Emoji::Unicode("👍".to_string()));
    db.log_reaction(false, 5, 1, 2, &ReactionEmoji::Custom(10));
    db.log_reaction(true, 5, 1, 2, &ReactionEmoji::Custom(11));
    db.log_reaction(true, 5, 1, 2, &ReactionEmoji::Unicode("🐍".to_string()));
    assert_eq!(db.reactions.len(), 0);
    db.log_reaction(true, 5, 1, 2, &ReactionEmoji::Custom(10));
    db.log_reaction(true, 5, 1, 2, &ReactionEmoji::Unicode("👍".to_string()));
    db.log_reaction(true, 5, 1, 2, &ReactionEmoji::Unicode("👍".to_string()));
    assert_eq!(db.reactions.len(), 2);
}

#[test]
fn bot_info_report() {
    assert_eq!(
        bot_info_text_from("emojistats", "0.1.0", "now", 1, 3),
        "**emojistats version 0.1.0**\nOnline since now on 1 server comprising 3 text channels. :clock2:"
    );
    assert_eq!(
        bot_info_text("emojistats", "0.1.0", -300, 2, 1),
        "**emojistats version 0.1.0**\nOnline since 5 minutes ago on 2 servers comprising 1 text channel. :clock2:"
    );
}
