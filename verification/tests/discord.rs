use friends::api::discord::{
    DmMessage, byte_substr, can_truncate_at, format_timestamp, get_user_id, history_to_items,
    history_url, open_channel_url, send_url, sent_items, truncate_str,
};
use friends::apps::discord::DiscordApplet;
use friends::data::profile::Profile;

fn profile_with_id(id: &str) -> Profile {
    Profile::from_pairs(vec![("discord_user_id".to_string(), id.to_string())])
}

fn message(content: &str, author: &str, bot: bool, ts: &str) -> DmMessage {
    DmMessage {
        content: content.to_string(),
        author_username: author.to_string(),
        author_is_bot: bot,
        timestamp: ts.to_string(),
    }
}

#[test]
fn test_get_user_id_missing_returns_error() {
    assert!(get_user_id(&Profile::new()).is_err());
}

#[test]
fn test_get_user_id_whitespace_only_returns_error() {
    assert!(get_user_id(&profile_with_id("   ")).is_err());
}

#[test]
fn test_get_user_id_present_returns_value() {
    assert_eq!(get_user_id(&profile_with_id("123456789")).unwrap(), "123456789");
}

#[test]
fn test_get_user_id_trims_whitespace() {
    assert_eq!(get_user_id(&profile_with_id("  123  ")).unwrap(), "123");
}

#[test]
fn test_format_timestamp_full() {
    assert_eq!(format_timestamp("2024-06-15T10:30:00.000000+00:00"), "Jun 15, 10:30");
}

#[test]
fn test_format_timestamp_january_first() {
    assert_eq!(format_timestamp("2024-01-01T08:05:00+00:00"), "Jan 1, 08:05");
}

#[test]
fn test_format_timestamp_short_returns_as_is() {
    assert_eq!(format_timestamp("too-short"), "too-short");
}

#[test]
fn test_truncate_str_no_truncation() {
    assert_eq!(truncate_str("hello", 10), "hello");
}

#[test]
fn test_truncate_str_truncates() {
    let result = truncate_str("hello world", 6);
    assert!(result.len() <= 8, "should be short: {result}");
    assert!(result.starts_with("hello"));
}

#[test]
fn get_user_id_error_message() {
    assert_eq!(get_user_id(&Profile::new()), Err("discord_user_id is required".to_string()));
}

#[test]
fn format_timestamp_unknown_month_left_as_is() {
    assert_eq!(format_timestamp("2024-13-15T10:30:00+00:00"), "2024-13-15T10:30:00+00:00");
    assert_eq!(format_timestamp("2024-12-31T23:59:00+00:00"), "Dec 31, 23:59");
}

#[test]
fn truncate_exact_values() {
    assert_eq!(truncate_str("hello world", 6), "hello…");
    assert_eq!(truncate_str("abc", 0), "…");
    assert_eq!(truncate_str("abc", 3), "abc");
    assert!(!can_truncate_at("héllo", 3));
    assert!(can_truncate_at("héllo", 4));
    assert!(can_truncate_at("héllo", 6));
    assert_eq!(truncate_str("héllo", 4), "hé…");
}

#[test]
fn byte_substr_on_boundaries_only() {
    assert_eq!(byte_substr("2024-06-15", 5, 7), Some("06".to_string()));
    assert_eq!(byte_substr("é", 0, 1), None);
    assert_eq!(byte_substr("abc", 2, 1), None);
    assert_eq!(byte_substr("abc", 1, 4), None);
}

#[test]
fn history_items_per_message() {
    let items = history_to_items(&vec![
        message("hi there", "ann", false, "2024-06-15T10:30:00+00:00"),
        message("hello", "bot", true, "short"),
    ]);
    assert_eq!(items.len(), 2);
    assert_eq!(items[0].title, "[ann] hi there");
    assert_eq!(items[0].subtitle.as_deref(), Some("Jun 15, 10:30"));
    assert_eq!(items[1].title, "[You] hello");
    assert_eq!(items[1].subtitle.as_deref(), Some("short"));
    let long = "x".repeat(100);
    let cut = history_to_items(&vec![message(&long, "ann", false, "")]);
    assert_eq!(cut[0].title, format!("[ann] {}…", "x".repeat(79)));
}

#[test]
fn history_items_when_empty() {
    let items = history_to_items(&vec![]);
    assert_eq!(items.len(), 1);
    assert_eq!(items[0].title, "No messages yet — press [c] to write one");
    assert!(items[0].subtitle.is_none());
}

#[test]
fn sent_item_shows_message() {
    let items = sent_items("see you soon");
    assert_eq!(items.len(), 1);
    assert_eq!(items[0].title, "Sent!");
    assert_eq!(items[0].subtitle.as_deref(), Some("see you soon"));
}

#[test]
fn discord_endpoints() {
    assert_eq!(open_channel_url(), "https://discord.com/api/v10/users/@me/channels");
    assert_eq!(history_url("42"), "https://discord.com/api/v10/channels/42/messages?limit=20");
    assert_eq!(send_url("42"), "https://discord.com/api/v10/channels/42/messages");
}

#[test]
fn test_discord_key_and_name() {
    let a = DiscordApplet;
    assert_eq!(a.key(), "discord");
    assert_eq!(a.name(), "Discord DM");
}

#[test]
fn test_discord_fields_has_user_id_and_default_message() {
    let fields = DiscordApplet.fields();
    assert!(fields.iter().any(|f| f.key == "discord_user_id"));
    assert!(fields.iter().any(|f| f.key == "default_message"));
    assert!(!fields.iter().any(|f| f.key == "bot_token"), "token must not be a per-friend field");
}

#[test]
fn test_discord_unlocked_with_user_id() {
    assert!(DiscordApplet.is_unlocked(&profile_with_id("123456789012345678")));
}

#[test]
fn test_discord_locked_missing_user_id() {
    assert!(!DiscordApplet.is_unlocked(&Profile::new()));
}

#[test]
fn test_discord_locked_whitespace_only_user_id() {
    assert!(!DiscordApplet.is_unlocked(&profile_with_id("   ")));
}
