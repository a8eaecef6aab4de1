use emojistats::command::{message_command, parse_command, Command};
use emojistats::database::Database;
use emojistats::model::{CustomEmoji, Emoji};
use emojistats::queries::Scope;
use emojistats::recorder::count_occurrences;
use emojistats::report::{create_emoji_usage_line, create_top_users_line, ranking_fields, user_header};
use emojistats::roster::{BasicServerInfo, Channel, ChannelKind, PrivateChannel, PublicChannel, Roster};
use emojistats::workspace::Workspace;

const S1: u64 = 500;
const C1: u64 = 100;
const C2: u64 = 101;
const U1: u64 = 7;
const U2: u64 = 8;

fn fire() -> CustomEmoji {
    CustomEmoji::new(S1, 10, "fire".to_string(), false)
}

fn server_db() -> Database {
    let mut db = Database::new();
    db.add_channel(C1, S1, "general".to_string());
    db.add_channel(C2, S1, "random".to_string());
    db.update_server_emoji_list(&vec![fire()], S1);
    db
}

fn patterns(rows: &[(Emoji, u64)]) -> Vec<(String, u64)> {
    rows.iter().map(|(e, n)| (e.pattern().to_string(), *n)).collect()
}

#[test]
fn custom_emoji_pattern() {
    let e = fire();
    assert_eq!(e.pattern(), "<:fire:10>");
    assert_eq!(e.name(), "fire");
    let big = CustomEmoji::new(1, 1234567890123, "x".to_string(), true);
    assert_eq!(big.pattern(), "<:x:1234567890123>");
}

#[test]
fn counting_is_left_to_right_without_overlap() {
    assert_eq!(count_occurrences("aaaa", "aa"), 2);
    assert_eq!(count_occurrences("aaa", "aa"), 1);
    assert_eq!(count_occurrences("abc", ""), 0);
    assert_eq!(count_occurrences("🎉x🎉", "🎉"), 2);
    assert_eq!(count_occurrences("", "a"), 0);
}

#[test]
fn recording_a_message_counts_its_emoji() {
    let mut db = server_db();
    db.record_message(1, C1, U1, Some(S1), "<:fire:10><:fire:10> nice <:fire:10>");
    let e = db.find_custom_emoji(10).unwrap();
    assert_eq!(db.use_count(C1, U1, e), 3);
    assert_eq!(db.message_emoji_count(1), Some(3));
}

#[test]
fn recording_twice_counts_once() {
    let mut db = server_db();
    db.record_message(1, C1, U1, Some(S1), "<:fire:10> <:fire:10>");
    db.record_message(1, C1, U1, Some(S1), "<:fire:10> <:fire:10>");
    let e = db.find_custom_emoji(10).unwrap();
    assert_eq!(db.use_count(C1, U1, e), 2);
    assert!(db.message_exists(1));
    assert_eq!(db.message_emoji_count(1), Some(2));
}

#[test]
fn a_message_without_emoji_is_recorded_with_zero() {
    let mut db = server_db();
    db.record_message(2, C1, U1, Some(S1), "hello");
    assert_eq!(db.message_emoji_count(2), Some(0));
    assert!(db.get_server_top_emoji(S1).is_empty());
    assert!(db.get_server_top_users(S1).is_empty());
}

#[test]
fn custom_emoji_of_other_servers_are_not_counted() {
    let mut db = server_db();
    db.record_message(3, C1, U1, Some(999), "<:fire:10>");
    db.record_message(4, C1, U1, None, "<:fire:10>");
    let e = db.find_custom_emoji(10).unwrap();
    assert_eq!(db.use_count(C1, U1, e), 0);
}

#[test]
fn reconciling_marks_missing_emoji_inactive() {
    let mut db = Database::new();
    let a = CustomEmoji::new(S1, 1, "a".to_string(), false);
    let b = CustomEmoji::new(S1, 2, "b".to_string(), false);
    let c = CustomEmoji::new(S1, 3, "c".to_string(), false);
    db.add_channel(C1, S1, "general".to_string());
    db.update_server_emoji_list(&vec![a.clone(), b.clone()], S1);
    db.record_message(1, C1, U1, Some(S1), "<:a:1><:a:1>");
    db.update_server_emoji_list(&vec![b.clone(), c.clone()], S1);
    let ia = db.find_custom_emoji(1).unwrap();
    let ib = db.find_custom_emoji(2).unwrap();
    let ic = db.find_custom_emoji(3).unwrap();
    assert!(!db.emoji[ia].is_active);
    assert!(db.emoji[ib].is_active);
    assert!(db.emoji[ic].is_active);
    assert_eq!(db.use_count(C1, U1, ia), 2);
    // reporting the same list again changes nothing
    db.update_server_emoji_list(&vec![b, c], S1);
    assert_eq!(db.emoji.len(), 3);
    assert!(!db.emoji[ia].is_active);
    // a renamed emoji keeps its row
    db.update_server_emoji_list(&vec![CustomEmoji::new(S1, 1, "aa".to_string(), false)], S1);
    assert_eq!(db.find_custom_emoji(1), Some(ia));
    assert!(db.emoji[ia].is_active);
    assert_eq!(db.emoji[ia].emoji.pattern(), "<:aa:1>");
    assert!(!db.emoji[ib].is_active);
}

fn unicode_db() -> Database {
    let mut db = server_db();
    db.add_emoji(Emoji::Unicode("🎉".to_string()));
    db.add_emoji(Emoji::Unicode("🔥".to_string()));
    db
}

#[test]
fn channel_ranking_orders_by_uses() {
    let mut db = unicode_db();
    let party = db.get_emoji_id("🎉").unwrap();
    let flame = db.get_emoji_id("🔥").unwrap();
    assert!(db.record_emoji_usage(C1, U1, flame, 3));
    assert!(db.record_emoji_usage(C1, U2, party, 7));
    let top = db.top_emoji(Scope::Channel(C1), 5);
    assert_eq!(patterns(&top), vec![("🎉".to_string(), 7), ("🔥".to_string(), 3)]);
    assert_eq!(db.get_channel_emoji_use_count(C1), 10);
}

#[test]
fn ranking_twice_gives_the_same_list() {
    let mut db = unicode_db();
    let party = db.get_emoji_id("🎉").unwrap();
    let flame = db.get_emoji_id("🔥").unwrap();
    db.record_emoji_usage(C1, U1, flame, 4);
    db.record_emoji_usage(C2, U1, party, 4);
    let a = patterns(&db.get_server_top_emoji(S1));
    let b = patterns(&db.get_server_top_emoji(S1));
    assert_eq!(a, b);
    // equal totals keep the order of the emoji table
    assert_eq!(a, vec![("🎉".to_string(), 4), ("🔥".to_string(), 4)]);
}

#[test]
fn ranking_keeps_the_limit() {
    let mut db = server_db();
    let names = ["a", "b", "c", "d", "e", "f", "g"];
    let mut list = vec![fire()];
    for (i, n) in names.iter().enumerate() {
        list.push(CustomEmoji::new(S1, 20 + i as u64, n.to_string(), false));
    }
    db.update_server_emoji_list(&list, S1);
    for i in 0..7u64 {
        let e = db.find_custom_emoji(20 + i).unwrap();
        db.record_emoji_usage(C1, U1, e, i + 1);
    }
    let top = db.get_server_top_custom_emoji(S1);
    let counts: Vec<u64> = top.iter().map(|(_, n)| *n).collect();
    assert_eq!(counts, vec![7, 6, 5, 4, 3]);
    let least = db.get_server_least_used_custom_emoji(S1);
    let counts: Vec<u64> = least.iter().map(|(_, n)| *n).collect();
    // fire was never used and comes first
    assert_eq!(counts, vec![0, 1, 2, 3, 4]);
    assert_eq!(least[0].0.pattern(), "<:fire:10>");
    assert_eq!(db.get_server_custom_emoji_use_count(S1), 28);
}

#[test]
fn global_ranking_holds_unicode_emoji_only() {
    let mut db = unicode_db();
    db.record_message(1, C1, U1, Some(S1), "🔥 <:fire:10> 🔥");
    let top = patterns(&db.get_global_top_emoji());
    assert_eq!(top, vec![("🔥".to_string(), 2)]);
    assert_eq!(db.get_global_emoji_use_count(), 2);
    assert_eq!(db.get_server_emoji_use_count(S1), 3);
    assert_eq!(db.get_user_emoji_use_count(U1, Some(S1)), 3);
    assert_eq!(patterns(&db.get_user_top_emoji(U1, None)), vec![("🔥".to_string(), 2)]);
    assert_eq!(db.get_user_top_emoji(U1, Some(S1)).len(), 2);
}

#[test]
fn top_users_come_from_messages() {
    let mut db = unicode_db();
    db.add_user(U1, "alice".to_string(), 1);
    db.add_user(U2, "bob".to_string(), 2);
    db.record_message(1, C1, U1, Some(S1), "🔥");
    db.record_message(2, C1, U2, Some(S1), "🔥🔥 🎉");
    db.record_message(3, C2, U2, Some(S1), "nothing");
    let users = db.get_channel_top_users(C1);
    assert_eq!(users, vec![("bob".to_string(), 3), ("alice".to_string(), 1)]);
    assert_eq!(db.get_server_top_users(S1).len(), 2);
    assert_eq!(db.get_user_name(U2), Some("bob".to_string()));
    assert_eq!(db.get_user_name(99), None);
}

#[test]
fn reactions_are_recorded_once() {
    let mut db = unicode_db();
    let flame = db.get_emoji_id("🔥").unwrap();
    db.record_reaction(C1, 1, U1, flame);
    db.record_reaction(C1, 1, U1, flame);
    db.record_reaction(C1, 1, U2, flame);
    assert_eq!(db.reactions.len(), 2);
    assert_eq!(db.get_server_reaction_count(S1), 2);
    assert_eq!(patterns(&db.get_server_top_reaction_emoji(S1)), vec![("🔥".to_string(), 2)]);
}

#[test]
fn usage_of_one_emoji() {
    let mut db = unicode_db();
    db.record_message(1, C1, U1, Some(S1), "<:fire:10> 🎉");
    assert_eq!(db.get_emoji_usage(&Emoji::Custom(fire())), Some(1));
    assert_eq!(db.get_emoji_usage(&Emoji::Unicode("🎉".to_string())), Some(1));
    assert_eq!(db.get_emoji_usage(&Emoji::Unicode("🐍".to_string())), None);
    assert_eq!(db.find_emoji_by_pattern("<:fire:10>"), db.find_custom_emoji(10));
}

#[test]
fn an_increment_that_would_overflow_is_dropped() {
    let mut db = unicode_db();
    let flame = db.get_emoji_id("🔥").unwrap();
    assert!(db.record_emoji_usage(C1, U1, flame, u64::MAX));
    assert!(!db.record_emoji_usage(C1, U1, flame, 1));
    assert_eq!(db.use_count(C1, U1, flame), u64::MAX);
}

#[test]
fn ranking_lines() {
    let rows = vec![(Emoji::Unicode("🎉".to_string()), 7), (Emoji::Custom(fire()), 1)];
    assert_eq!(create_emoji_usage_line(rows), "🎉 used 7 times\n<:fire:10> used 1 time\n");
    let users = vec![("alice".to_string(), 12)];
    assert_eq!(create_top_users_line(users), "alice used 12 emoji\n");
    assert_eq!(create_emoji_usage_line(Vec::new()), "");
}

#[test]
fn unknown_channel_is_refreshed_once() {
    let mut roster = Roster::new();
    assert!(roster.should_refresh(77));
    roster.finish_refresh(77);
    assert!(!roster.should_refresh(77));
    assert!(!roster.should_refresh(77));
    assert!(roster.should_refresh(78));
}

#[test]
fn a_channel_found_by_the_refresh_is_not_remembered_as_unknown() {
    let mut roster = Roster::new();
    assert!(roster.should_refresh(C1));
    let general = PublicChannel { id: C1, server_id: S1, name: "general".to_string(), kind: ChannelKind::Text };
    roster.add_server_info(BasicServerInfo { id: S1, name: "s".to_string(), icon: None }, vec![general]);
    roster.finish_refresh(C1);
    assert!(roster.unknown_channels.is_empty());
    assert!(!roster.should_refresh(C1));
}

#[test]
fn removing_a_server_removes_its_channels() {
    let mut roster = Roster::new();
    let text = |id: u64, server_id: u64| PublicChannel { id, server_id, name: "t".to_string(), kind: ChannelKind::Text };
    roster.add_server_info(BasicServerInfo { id: 1, name: "one".to_string(), icon: None }, vec![text(10, 1), text(11, 1)]);
    roster.add_server_info(BasicServerInfo { id: 2, name: "two".to_string(), icon: None }, vec![text(20, 2)]);
    roster.add_channel(Channel::Public(PublicChannel { id: 12, server_id: 1, name: "v".to_string(), kind: ChannelKind::Other }));
    roster.add_channel(Channel::Private(PrivateChannel { id: 30, recipient_id: 5, recipient_name: "p".to_string() }));
    assert!(!roster.public_text_channels.contains(12));
    roster.remove_server_id(1);
    assert!(!roster.servers.contains(1));
    assert!(!roster.public_text_channels.contains(10));
    assert!(!roster.public_text_channels.contains(11));
    assert!(roster.public_text_channels.contains(20));
    assert!(roster.private_channels.contains(30));
    assert_eq!(roster.new_servers(&vec![1, 2, 3]), vec![1, 3]);
}

#[test]
fn commands_are_read_case_aside() {
    assert!(matches!(parse_command(", HELP"), Command::Help));
    assert!(matches!(parse_command("Global"), Command::Global));
    assert!(matches!(parse_command(""), Command::Help));
    assert!(matches!(parse_command("least-used"), Command::LeastUsed));
    assert!(matches!(parse_command("<#5>"), Command::Channel(Some(5))));
    assert!(matches!(parse_command("<@!6>"), Command::User(Some(6))));
    assert!(matches!(parse_command("me"), Command::User(None)));
    match parse_command("auth  secret words") {
        Command::Auth(p) => assert_eq!(p, "secret words"),
        _ => panic!("not auth"),
    }
    match parse_command("<:fire:10>") {
        Command::Word(w) => assert_eq!(w, "<:fire:10>"),
        _ => panic!("not a word"),
    }
}

#[test]
fn commands_start_with_a_mention_of_the_bot() {
    assert_eq!(message_command("<@42> server", 42, false), Some(" server"));
    assert_eq!(message_command("<@!42> server", 42, false), Some(" server"));
    assert_eq!(message_command("<@43> server", 42, false), None);
    assert_eq!(message_command("server", 42, true), Some("server"));
    assert_eq!(message_command("hi <@42>", 42, false), None);
}

#[test]
fn a_seen_server_brings_channels_and_emoji() {
    let mut ws = Workspace::new();
    let general = PublicChannel { id: C1, server_id: S1, name: "general".to_string(), kind: ChannelKind::Text };
    let voice = PublicChannel { id: 102, server_id: S1, name: "voice".to_string(), kind: ChannelKind::Other };
    ws.on_server_seen(BasicServerInfo { id: S1, name: "s".to_string(), icon: None }, vec![general, voice], vec![fire()]);
    assert!(ws.roster.servers.contains(S1));
    assert!(ws.roster.public_text_channels.contains(C1));
    assert!(!ws.roster.public_text_channels.contains(102));
    assert_eq!(ws.db.server_of_channel(C1), Some(S1));
    assert!(!ws.roster.should_refresh(C1));
    ws.on_message(1, C1, U1, "<:fire:10><:fire:10> nice <:fire:10>");
    let e = ws.db.find_custom_emoji(10).unwrap();
    assert_eq!(ws.db.use_count(C1, U1, e), 3);
    assert_eq!(ws.db.message_emoji_count(1), Some(3));
    // a channel the roster does not know has no server, so custom emoji do not count there
    ws.on_message(2, 555, U1, "<:fire:10>");
    assert_eq!(ws.db.use_count(555, U1, e), 0);
    assert_eq!(ws.db.message_emoji_count(2), Some(0));
}

#[test]
fn only_text_channels_reach_the_store() {
    let mut ws = Workspace::new();
    ws.on_channel(Channel::Public(PublicChannel { id: 1, server_id: S1, name: "t".to_string(), kind: ChannelKind::Text }));
    ws.on_channel(Channel::Public(PublicChannel { id: 2, server_id: S1, name: "v".to_string(), kind: ChannelKind::Other }));
    ws.on_channel(Channel::Private(PrivateChannel { id: 3, recipient_id: 9, recipient_name: "p".to_string() }));
    ws.on_channel(Channel::Group(4));
    assert_eq!(ws.db.server_of_channel(1), Some(S1));
    assert_eq!(ws.db.server_of_channel(2), None);
    assert!(ws.roster.public_text_channels.contains(1));
    assert!(!ws.roster.public_text_channels.contains(2));
    assert!(ws.roster.private_channels.contains(3));
    // an update renames the channel in place
    ws.on_channel(Channel::Public(PublicChannel { id: 1, server_id: S1, name: "renamed".to_string(), kind: ChannelKind::Text }));
    assert_eq!(ws.roster.public_text_channels.get(1).map(|c| c.name.clone()), Some("renamed".to_string()));
    assert_eq!(ws.db.channels.len(), 1);
    assert_eq!(ws.db.channels[0].name, "renamed");
    ws.on_server_channels(BasicServerInfo { id: S1, name: "s".to_string(), icon: None }, vec![
        PublicChannel { id: 5, server_id: S1, name: "five".to_string(), kind: ChannelKind::Text },
    ]);
    assert_eq!(ws.db.server_of_channel(5), Some(S1));
    assert!(ws.roster.servers.contains(S1));
}

#[test]
fn a_message_id_has_one_row() {
    let mut db = server_db();
    assert!(db.record_message_stats(9, C1, U1, 4));
    assert!(!db.record_message_stats(9, C2, U2, 7));
    assert_eq!(db.messages.len(), 1);
    assert_eq!(db.message_emoji_count(9), Some(4));
    assert_eq!(db.messages[0].channel_id, C1);
}

#[test]
fn the_last_of_repeated_entries_wins_and_reporting_twice_changes_nothing() {
    let mut db = Database::new();
    let list = vec![
        CustomEmoji::new(S1, 1, "first".to_string(), false),
        CustomEmoji::new(S1, 1, "second".to_string(), true),
    ];
    db.update_server_emoji_list(&list, S1);
    let e = db.find_custom_emoji(1).unwrap();
    assert_eq!(db.emoji[e].emoji.pattern(), "<:second:1>");
    db.update_server_emoji_list(&list, S1);
    assert_eq!(db.emoji.len(), 1);
    assert_eq!(db.emoji[e].emoji.pattern(), "<:second:1>");
    assert!(db.emoji[e].is_active);
}

#[test]
fn ranking_reply_fields() {
    let top = vec![(Emoji::Unicode("🎉".to_string()), 2)];
    let users = vec![("alice".to_string(), 2)];
    let f = ranking_fields(top, 2, Vec::new(), 0, Some(users)).unwrap();
    assert_eq!(f, vec![
        ("Top Emoji (2 total uses)".to_string(), "🎉 used 2 times\n".to_string()),
        ("Top Emoji Users".to_string(), "alice used 2 emoji\n".to_string()),
    ]);
    let reactions = vec![(Emoji::Unicode("🔥".to_string()), 1)];
    let f = ranking_fields(Vec::new(), 0, reactions, 1, Some(Vec::new())).unwrap();
    assert_eq!(f, vec![("Top Reaction Emoji (1 total use)".to_string(), "🔥 used 1 time\n".to_string())]);
    assert!(ranking_fields(Vec::new(), 0, Vec::new(), 0, None).is_none());
    assert_eq!(user_header(true, "x", 3, true), "All in all, you have used 3 emoji on this server:");
    assert_eq!(user_header(false, "bob", 1, false), "All in all, bob has used 1 emoji:");
}

#[test]
fn known_servers_are_refreshed_only_while_the_channel_is_unknown() {
    let mut roster = Roster::new();
    roster.add_server_info(BasicServerInfo { id: 1, name: "one".to_string(), icon: None }, Vec::new());
    let fresh = roster.new_servers(&vec![1, 2]);
    assert_eq!(fresh, vec![2]);
    assert_eq!(roster.servers_to_refresh(&vec![1, 2], &fresh, 50), vec![1]);
    roster.add_channel(Channel::Public(PublicChannel { id: 50, server_id: 2, name: "c".to_string(), kind: ChannelKind::Text }));
    assert!(roster.servers_to_refresh(&vec![1, 2], &fresh, 50).is_empty());
}
