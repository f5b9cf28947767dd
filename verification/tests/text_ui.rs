use friends::app::{AppState, EditRow, LoadState};
use friends::apps::AppletItem;
use friends::apps::build_registry;
use friends::data::friend::{BookProfile, Friend};
use friends::data::profile::Profile;
use friends::date::{Date, date_at_most};
use friends::text::{
    chars_of, contains_str, is_whitespace, join_strings, parse_csv, push_decimal, str_eq,
    string_of, trim_bounds, trimmed,
};
use friends::ui::{
    applet_message, applet_title, compose_title, delete_prompt, detail_lines, edit_window_start, row_title, truncate,
};

#[test]
fn trimming_matches_str_trim() {
    for s in ["", "   ", " a b ", "\t\nx\u{3000}", "\u{a0}y\u{85}", "plain"] {
        assert_eq!(trimmed(s), s.trim(), "{s:?}");
    }
    let v = chars_of("  hi ");
    assert_eq!(trim_bounds(&v), (2, 4));
    assert_eq!(string_of(&v, 2, 4), "hi");
    assert!(is_whitespace('\u{2028}'));
    assert!(!is_whitespace('x'));
}

#[test]
fn csv_items_are_trimmed_and_non_empty() {
    assert_eq!(parse_csv(" Rust, Go ,,  "), vec!["Rust".to_string(), "Go".to_string()]);
    assert!(parse_csv("").is_empty());
    assert!(parse_csv(" , ").is_empty());
    let items = vec!["Rust".to_string(), "Go".to_string()];
    let joined = join_strings(&items, ", ");
    assert_eq!(joined, "Rust, Go");
    assert_eq!(parse_csv(&joined), items);
    assert_eq!(parse_csv(&trimmed(&joined)), items);
    assert_eq!(join_strings(&vec![], ", "), "");
}

#[test]
fn decimal_rendering_and_search() {
    let mut s = String::new();
    push_decimal(&mut s, -1203);
    push_decimal(&mut s, 0);
    push_decimal(&mut s, i64::MIN);
    assert_eq!(s, format!("-12030{}", i64::MIN));
    assert!(contains_str("hello world", "o w"));
    assert!(contains_str("abc", ""));
    assert!(!contains_str("abc", "abcd"));
    assert!(str_eq("é", "é"));
    assert!(!str_eq("a", "ab"));
}

#[test]
fn dates_compare_chronologically() {
    let d = |y, m, d| Date { year: y, month: m, day: d };
    assert!(date_at_most(d(2024, 1, 31), d(2024, 2, 1)));
    assert!(date_at_most(d(2024, 2, 1), d(2024, 2, 1)));
    assert!(!date_at_most(d(2025, 1, 1), d(2024, 12, 31)));
}

#[test]
fn profiles_keep_the_last_value_per_key() {
    let mut p = Profile::from_pairs(vec![("a".to_string(), "1".to_string())]);
    assert!(!p.is_empty());
    p.insert("a".to_string(), "2".to_string());
    assert_eq!(p.get("a").map(|s| s.as_str()), Some("2"));
    assert_eq!(p.get_or_empty("b"), "");
    assert_eq!(p.get_owned("a"), Some("2".to_string()));
    assert_eq!(p.copy().get_or_empty("a"), "2");
    assert!(Profile::new().is_empty());
}

#[test]
fn new_friends_get_distinct_ids() {
    let a = Friend::new("A".to_string());
    let b = Friend::new("A".to_string());
    assert_eq!(a.id.len(), 36);
    for (i, c) in a.id.chars().enumerate() {
        if [8, 13, 18, 23].contains(&i) {
            assert_eq!(c, '-');
        } else {
            assert!(c.is_ascii_hexdigit() && !c.is_ascii_uppercase());
        }
    }
    assert_eq!(a.id.chars().nth(14), Some('4'));
    assert!("89ab".contains(a.id.chars().nth(19).unwrap()));
    assert_ne!(a.id, b.id);
    assert!(a.email.is_none() && a.interests.is_empty() && a.extra.is_empty());
}

#[test]
fn detail_panel_lines() {
    let mut f = Friend::new("Ann".to_string());
    f.email = Some("ann@x.org".to_string());
    f.book_profile = Some(BookProfile { genres: vec!["sci-fi".to_string()], authors: vec![] });
    f.interests = vec!["chess".to_string(), "go".to_string()];
    let lines = detail_lines(&f, &build_registry());
    assert_eq!(
        lines,
        vec![
            "Ann",
            "",
            "email:  ann@x.org",
            "",
            "Book Recs",
            "  Genres: sci-fi",
            "",
            "Conversation Prep",
            "  Interests: chess, go",
        ]
    );
    let bare = detail_lines(&Friend::new("Bo".to_string()), &build_registry());
    assert_eq!(bare, vec!["Bo", ""]);
}

#[test]
fn titles_and_prompts() {
    let row = EditRow {
        key: "k".to_string(),
        label: "Skills".to_string(),
        hint: Some("comma-separated".to_string()),
        value: String::new(),
    };
    assert_eq!(row_title(&row), " Skills (comma-separated) ");
    let plain = EditRow { hint: None, ..row };
    assert_eq!(row_title(&plain), " Skills ");
    assert_eq!(
        applet_title("Discord DM", "Ann", "discord"),
        " Discord DM: Ann  [esc]back [r]refresh [c]compose [enter]open URL "
    );
    assert_eq!(
        applet_title("Job Feed", "Ann", "job_feed"),
        " Job Feed: Ann  [esc]back [r]refresh [enter]open URL "
    );
    assert_eq!(compose_title("Ann"), " Send Message: Ann  [enter]send [esc]back ");
    assert_eq!(delete_prompt(Some("Ann")), "Delete Ann?\n\n[y] yes    [n] no");
    assert_eq!(delete_prompt(None), "Delete this friend?\n\n[y] yes    [n] no");
}

#[test]
fn edit_window_follows_the_cursor() {
    assert_eq!(edit_window_start(0, 5), 0);
    assert_eq!(edit_window_start(4, 5), 0);
    assert_eq!(edit_window_start(5, 5), 1);
    assert_eq!(edit_window_start(13, 5), 9);
    assert_eq!(edit_window_start(3, 0), 4);
}

#[test]
fn subtitles_are_cut_short() {
    assert_eq!(truncate("short", 90), "short");
    let long = "a".repeat(100);
    assert_eq!(truncate(&long, 90), format!("{}…", "a".repeat(89)));
}

#[test]
fn applet_screen_messages() {
    assert_eq!(applet_message(&LoadState::Loading).as_deref(), Some("Loading..."));
    assert_eq!(applet_message(&LoadState::Idle).as_deref(), Some("Press [r] to fetch."));
    assert_eq!(
        applet_message(&LoadState::Error("offline".to_string())).as_deref(),
        Some("Error: offline")
    );
    assert_eq!(applet_message(&LoadState::Loaded(vec![])).as_deref(), Some("No results found."));
    let item = AppletItem { title: "t".to_string(), subtitle: None, url: None };
    assert_eq!(applet_message(&LoadState::Loaded(vec![item])), None);
}

#[test]
fn current_friend_mut_changes_only_that_friend() {
    let mut state = AppState::new(
        vec![Friend::new("A".to_string()), Friend::new("B".to_string())],
        build_registry(),
    );
    state.selected_friend = 1;
    state.current_friend_mut().unwrap().name = "Bee".to_string();
    assert_eq!(state.friends[0].name, "A");
    assert_eq!(state.friends[1].name, "Bee");
    assert_eq!(state.selected_friend, 1);
    state.selected_friend = 2;
    assert!(state.current_friend_mut().is_none());
    let _: &AppState = &state;
}
