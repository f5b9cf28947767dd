use friends::app::edit::without_last_char;
use friends::app::{AppState, EditState, Screen};
use friends::apps::{AppletRegistry, build_registry};
use friends::data::friend::Friend;
use friends::data::profile::Profile;

fn registry() -> AppletRegistry {
    build_registry()
}

fn pairs(items: &[(&str, &str)]) -> Profile {
    Profile::from_pairs(items.iter().map(|(k, v)| (k.to_string(), v.to_string())).collect())
}

fn full_friend() -> Friend {
    let mut f = Friend::new("Alice".to_string());
    f.email = Some("alice@example.com".to_string());
    f.notes = Some("great friend".to_string());
    f.set_profile(
        "job_feed",
        pairs(&[("desired_role", "Engineer"), ("skills", "Rust, Go"), ("location", "Austin")]),
    );
    f.set_profile("book_recs", pairs(&[("genres", "sci-fi"), ("authors", "Le Guin")]));
    f.set_profile("wiki_prep", pairs(&[("interests", "climbing, jazz")]));
    f
}

fn field(f: &Friend, applet: &str, key: &str) -> Option<String> {
    f.profile_for(applet).get(key).cloned()
}

#[test]
fn test_blank_rows_all_empty() {
    let edit = EditState::blank_for_registry(&build_registry());
    assert!(edit.rows.len() > 3, "should have core + applet rows");
    for row in &edit.rows {
        assert!(row.value.is_empty(), "row {} should be empty", row.key);
    }
    assert_eq!(edit.cursor, 0);
}

#[test]
fn test_from_friend_core_fields() {
    let f = full_friend();
    let edit = EditState::from_friend_and_registry(&f, &build_registry());
    assert_eq!(edit.get("name"), "Alice");
    assert_eq!(edit.get("email"), "alice@example.com");
    assert_eq!(edit.get("notes"), "great friend");
}

#[test]
fn test_from_friend_applet_fields() {
    let f = full_friend();
    let edit = EditState::from_friend_and_registry(&f, &build_registry());
    assert_eq!(edit.get("job_feed.desired_role"), "Engineer");
    assert_eq!(edit.get("job_feed.skills"), "Rust, Go");
    assert_eq!(edit.get("book_recs.genres"), "sci-fi");
    assert_eq!(edit.get("wiki_prep.interests"), "climbing, jazz");
}

#[test]
fn test_from_friend_missing_applet_fields_empty() {
    let f = Friend::new("Bob".to_string());
    let edit = EditState::from_friend_and_registry(&f, &build_registry());
    assert_eq!(edit.get("job_feed.desired_role"), "");
    assert_eq!(edit.get("book_recs.genres"), "");
}

#[test]
fn test_get_mut_updates_value() {
    let mut edit = EditState::blank_for_registry(&build_registry());
    if let Some(v) = edit.get_mut("name") {
        *v = "Alice".to_string();
    }
    assert_eq!(edit.get("name"), "Alice");
}

#[test]
fn test_apply_core_fields() {
    let mut edit = EditState::blank_for_registry(&build_registry());
    if let Some(v) = edit.get_mut("name") {
        *v = "Bob".to_string();
    }
    if let Some(v) = edit.get_mut("email") {
        *v = "bob@example.com".to_string();
    }

    let mut friend = Friend::new("old".to_string());
    edit.apply_to_friend(&mut friend);

    assert_eq!(friend.name, "Bob");
    assert_eq!(friend.email.as_deref(), Some("bob@example.com"));
}

#[test]
fn test_apply_whitespace_only_email_sets_none() {
    let mut edit = EditState::blank_for_registry(&build_registry());
    if let Some(v) = edit.get_mut("name") {
        *v = "Bob".to_string();
    }
    if let Some(v) = edit.get_mut("email") {
        *v = "   ".to_string();
    }
    let mut friend = Friend::new("Bob".to_string());
    edit.apply_to_friend(&mut friend);
    assert!(friend.email.is_none());
}

#[test]
fn test_apply_whitespace_only_notes_sets_none() {
    let mut edit = EditState::blank_for_registry(&build_registry());
    if let Some(v) = edit.get_mut("name") {
        *v = "Bob".to_string();
    }
    if let Some(v) = edit.get_mut("notes") {
        *v = "   ".to_string();
    }
    let mut friend = Friend::new("Bob".to_string());
    friend.notes = Some("old note".to_string());
    edit.apply_to_friend(&mut friend);
    assert!(friend.notes.is_none());
}

#[test]
fn test_apply_preserves_unregistered_applet_data() {
    let f = full_friend();
    let edit = EditState::from_friend_and_registry(&f, &build_registry());
    let mut friend = f.clone();
    friend.set_profile("unknown_applet", pairs(&[("secret_field", "preserved")]));
    edit.apply_to_friend(&mut friend);
    assert_eq!(field(&friend, "unknown_applet", "secret_field").as_deref(), Some("preserved"));
}

#[test]
fn test_apply_empty_email_sets_none() {
    let mut edit = EditState::blank_for_registry(&build_registry());
    if let Some(v) = edit.get_mut("name") {
        *v = "Bob".to_string();
    }
    let mut friend = Friend::new("Bob".to_string());
    friend.email = Some("old@example.com".to_string());
    edit.apply_to_friend(&mut friend);
    assert!(friend.email.is_none());
}

#[test]
fn test_apply_writes_applet_fields() {
    let mut edit = EditState::blank_for_registry(&build_registry());
    if let Some(v) = edit.get_mut("name") {
        *v = "Alice".to_string();
    }
    if let Some(v) = edit.get_mut("job_feed.desired_role") {
        *v = "Engineer".to_string();
    }
    if let Some(v) = edit.get_mut("job_feed.skills") {
        *v = "Rust".to_string();
    }

    let mut friend = Friend::new("Alice".to_string());
    edit.apply_to_friend(&mut friend);

    assert_eq!(field(&friend, "job_feed", "desired_role").as_deref(), Some("Engineer"));
    assert_eq!(field(&friend, "job_feed", "skills").as_deref(), Some("Rust"));
}

#[test]
fn test_apply_clears_applet_when_all_fields_empty() {
    let f = full_friend();
    let mut edit = EditState::from_friend_and_registry(&f, &build_registry());
    // Clear all job_feed fields
    for row in edit.rows.iter_mut().filter(|r| r.key.starts_with("job_feed.")) {
        row.value.clear();
    }
    let mut friend = f.clone();
    edit.apply_to_friend(&mut friend);
    assert!(!friend.has_profile("job_feed"));
    // Other applets should be untouched
    assert!(friend.has_profile("book_recs"));
}

#[test]
fn test_apply_roundtrip_full_friend() {
    let original = full_friend();
    let edit = EditState::from_friend_and_registry(&original, &build_registry());
    let mut restored = original.clone();
    edit.apply_to_friend(&mut restored);
    assert_eq!(restored.name, original.name);
    assert_eq!(restored.email, original.email);
    assert_eq!(field(&restored, "job_feed", "desired_role").as_deref(), Some("Engineer"));
    assert_eq!(field(&restored, "book_recs", "genres").as_deref(), Some("sci-fi"));
    assert_eq!(field(&restored, "wiki_prep", "interests").as_deref(), Some("climbing, jazz"));
}

#[test]
fn test_app_state_initial_screen() {
    let state = AppState::new(vec![], registry());
    assert_eq!(state.screen, Screen::FriendsList);
}

#[test]
fn test_app_state_current_friend_empty() {
    let state = AppState::new(vec![], registry());
    assert!(state.current_friend().is_none());
}

#[test]
fn test_app_state_current_friend() {
    let state = AppState::new(vec![Friend::new("Alice".to_string())], registry());
    assert_eq!(state.current_friend().unwrap().name, "Alice");
}

#[test]
fn form_rows_have_keys_labels_and_hints() {
    let edit = EditState::blank_for_registry(&build_registry());
    let keys: Vec<&str> = edit.rows.iter().map(|r| r.key.as_str()).collect();
    assert_eq!(
        keys,
        vec![
            "name",
            "email",
            "notes",
            "job_feed.desired_role",
            "job_feed.skills",
            "job_feed.location",
            "job_feed.remote_preference",
            "job_feed.experience_level",
            "book_recs.genres",
            "book_recs.authors",
            "wiki_prep.interests",
            "birthday.birthday",
            "discord.discord_user_id",
            "discord.default_message",
        ]
    );
    assert_eq!(edit.rows[3].label, "Job Feed: Desired Role");
    assert_eq!(edit.rows[4].hint.as_deref(), Some("comma-separated"));
    assert_eq!(edit.rows[0].label, "Name");
    assert!(edit.rows[0].hint.is_none());
}

#[test]
fn get_of_unknown_key_is_empty_and_get_mut_none() {
    let mut edit = EditState::blank_for_registry(&build_registry());
    assert_eq!(edit.get("nope"), "");
    assert!(edit.get_mut("nope").is_none());
}

#[test]
fn typing_and_deleting_edit_the_cursor_row() {
    let mut edit = EditState::blank_for_registry(&build_registry());
    edit.type_char('B');
    edit.type_char('é');
    assert_eq!(edit.get("name"), "Bé");
    edit.delete_char();
    assert_eq!(edit.get("name"), "B");
    edit.cursor_down();
    edit.type_char('x');
    assert_eq!(edit.get("email"), "x");
    edit.cursor_up();
    edit.cursor_up();
    assert_eq!(edit.cursor, 0);
    let last = edit.rows.len() - 1;
    for _ in 0..40 {
        edit.cursor_down();
    }
    assert_eq!(edit.cursor, last);
    assert_eq!(without_last_char(""), "");
    assert_eq!(without_last_char("ab"), "a");
}

#[test]
fn saving_trims_values_and_sets_profiles() {
    let mut edit = EditState::blank_for_registry(&build_registry());
    *edit.get_mut("name").unwrap() = "  Dana ".to_string();
    *edit.get_mut("wiki_prep.interests").unwrap() = " chess ,, go ".to_string();
    *edit.get_mut("birthday.birthday").unwrap() = " 1990-06-15 ".to_string();
    *edit.get_mut("discord.discord_user_id").unwrap() = "   ".to_string();
    let mut friend = Friend::new("x".to_string());
    let id = friend.id.clone();
    edit.apply_to_friend(&mut friend);
    assert_eq!(friend.name, "Dana");
    assert_eq!(friend.id, id);
    assert_eq!(friend.interests, vec!["chess".to_string(), "go".to_string()]);
    assert_eq!(field(&friend, "birthday", "birthday").as_deref(), Some("1990-06-15"));
    assert!(!friend.has_profile("discord"));
    assert!(friend.job_hunt.is_none());
}

#[test]
fn roundtrip_keeps_every_applet_profile() {
    let mut original = full_friend();
    original.set_profile("birthday", pairs(&[("birthday", "1990-06-15")]));
    original.set_profile("discord", pairs(&[("discord_user_id", "42"), ("default_message", "hey")]));
    let edit = EditState::from_friend_and_registry(&original, &build_registry());
    let mut restored = original.clone();
    edit.apply_to_friend(&mut restored);
    assert_eq!(restored.name, original.name);
    assert_eq!(restored.notes, original.notes);
    assert_eq!(restored.interests, original.interests);
    let (a, b) = (restored.job_hunt.clone().unwrap(), original.job_hunt.clone().unwrap());
    assert_eq!(a.desired_role, b.desired_role);
    assert_eq!(a.skills, b.skills);
    assert_eq!(a.location, b.location);
    assert_eq!(a.remote_preference, b.remote_preference);
    assert_eq!(a.experience_level, b.experience_level);
    let (a, b) = (restored.book_profile.clone().unwrap(), original.book_profile.clone().unwrap());
    assert_eq!(a.genres, b.genres);
    assert_eq!(a.authors, b.authors);
    for key in ["birthday", "discord"] {
        assert_eq!(
            restored.profile_for(key).pairs().len() > 0,
            original.profile_for(key).pairs().len() > 0
        );
    }
    assert_eq!(field(&restored, "discord", "default_message").as_deref(), Some("hey"));
    assert_eq!(field(&restored, "birthday", "birthday").as_deref(), Some("1990-06-15"));
}
