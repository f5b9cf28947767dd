use friends::apps::{AppletItem, AppletKind, available_applets, build_registry};
use friends::app::{AppState, EditState, LoadState, Screen, apply_fetch_result};
use friends::data::friend::{Friend, JobHuntProfile};
use friends::data::profile::Profile;
use friends::events::{EventAction, KeyCode, KeyInput, accepts_key, handle_key};

fn key(code: KeyCode) -> KeyInput {
    KeyInput::plain(code)
}

fn ch(c: char) -> KeyInput {
    KeyInput::plain(KeyCode::Char(c))
}

fn type_text(state: &mut AppState, text: &str) {
    for c in text.chars() {
        handle_key(state, ch(c));
    }
}

#[test]
fn test_add_friend_with_job_unlocks_job_feed() {
    let mut edit = EditState::blank_for_registry(&build_registry());
    *edit.get_mut("name").unwrap() = "Alice".to_string();
    *edit.get_mut("job_feed.desired_role").unwrap() = "Software Engineer".to_string();
    *edit.get_mut("job_feed.skills").unwrap() = "Rust, Python".to_string();

    let mut friend = Friend::new("Alice".to_string());
    edit.apply_to_friend(&mut friend);

    let applets = available_applets(&friend);
    assert!(applets.contains(&AppletKind::JobFeed));
    assert!(!applets.contains(&AppletKind::BookRecs));
    assert!(!applets.contains(&AppletKind::WikiPrep));
}

#[test]
fn test_add_friend_with_books_unlocks_book_recs() {
    let mut edit = EditState::blank_for_registry(&build_registry());
    *edit.get_mut("name").unwrap() = "Bob".to_string();
    *edit.get_mut("book_recs.genres").unwrap() = "sci-fi, fantasy".to_string();

    let mut friend = Friend::new("Bob".to_string());
    edit.apply_to_friend(&mut friend);

    let applets = available_applets(&friend);
    assert!(applets.contains(&AppletKind::BookRecs));
    assert!(!applets.contains(&AppletKind::JobFeed));
}

#[test]
fn test_add_friend_with_interests_unlocks_wiki_prep() {
    let mut edit = EditState::blank_for_registry(&build_registry());
    *edit.get_mut("name").unwrap() = "Carol".to_string();
    *edit.get_mut("wiki_prep.interests").unwrap() = "Byzantine history, jazz".to_string();

    let mut friend = Friend::new("Carol".to_string());
    edit.apply_to_friend(&mut friend);

    let applets = available_applets(&friend);
    assert!(applets.contains(&AppletKind::WikiPrep));
}

#[test]
fn test_filling_all_fields_unlocks_all_applets() {
    let mut edit = EditState::blank_for_registry(&build_registry());
    *edit.get_mut("name").unwrap() = "Dave".to_string();
    *edit.get_mut("job_feed.desired_role").unwrap() = "Engineer".to_string();
    *edit.get_mut("book_recs.genres").unwrap() = "history".to_string();
    *edit.get_mut("wiki_prep.interests").unwrap() = "climbing".to_string();

    let mut friend = Friend::new("Dave".to_string());
    edit.apply_to_friend(&mut friend);

    let applets = available_applets(&friend);
    assert_eq!(applets.len(), 3);
}

#[test]
fn test_edit_state_cycle_preserves_data() {
    let mut original = Friend {
        id: "test-id".to_string(),
        name: "Frank".to_string(),
        email: Some("frank@example.com".to_string()),
        notes: None,
        interests: vec!["jazz".to_string()],
        job_hunt: Some(JobHuntProfile {
            desired_role: "Designer".to_string(),
            skills: vec!["Figma".to_string(), "CSS".to_string()],
            location: None,
            remote_preference: Some("hybrid".to_string()),
            experience_level: None,
        }),
        book_profile: None,
        extra: Vec::new(),
    };

    let edit = EditState::from_friend_and_registry(&original, &build_registry());
    edit.apply_to_friend(&mut original);

    assert_eq!(original.name, "Frank");
    assert_eq!(original.email.as_deref(), Some("frank@example.com"));
    assert_eq!(original.interests, vec!["jazz"]);
    let jh = original.job_hunt.as_ref().unwrap();
    assert_eq!(jh.desired_role, "Designer");
    assert_eq!(jh.skills, vec!["Figma", "CSS"]);
    assert_eq!(jh.remote_preference.as_deref(), Some("hybrid"));
}

#[test]
fn test_app_state_selection_wraps_to_last_after_delete() {
    let friends = vec![
        Friend::new("Alice".to_string()),
        Friend::new("Bob".to_string()),
        Friend::new("Carol".to_string()),
    ];
    let mut state = AppState::new(friends, build_registry());
    state.selected_friend = 2;
    state.screen = Screen::ConfirmDelete;

    handle_key(&mut state, KeyInput::plain(KeyCode::Char('y')));

    assert_eq!(state.friends.len(), 2);
    assert_eq!(state.selected_friend, 1);
}

#[test]
fn list_navigation_stays_in_bounds() {
    let friends = vec![Friend::new("A".to_string()), Friend::new("B".to_string())];
    let mut state = AppState::new(friends, build_registry());
    assert_eq!(handle_key(&mut state, ch('j')), EventAction::Nothing);
    assert_eq!(state.selected_friend, 1);
    handle_key(&mut state, key(KeyCode::Down));
    assert_eq!(state.selected_friend, 1);
    handle_key(&mut state, ch('k'));
    handle_key(&mut state, key(KeyCode::Up));
    assert_eq!(state.selected_friend, 0);
    assert_eq!(handle_key(&mut state, ch('q')), EventAction::Quit);
    handle_key(&mut state, key(KeyCode::Enter));
    assert_eq!(state.screen, Screen::FriendDetail);
    handle_key(&mut state, key(KeyCode::Esc));
    assert_eq!(state.screen, Screen::FriendsList);
}

#[test]
fn adding_a_friend_requires_a_name_then_saves() {
    let mut state = AppState::new(vec![], build_registry());
    handle_key(&mut state, ch('a'));
    assert_eq!(state.screen, Screen::AddFriend);
    assert_eq!(handle_key(&mut state, key(KeyCode::Enter)), EventAction::Nothing);
    assert_eq!(state.status_msg.as_deref(), Some("Name is required."));
    assert!(state.friends.is_empty());
    type_text(&mut state, "  Eve ");
    handle_key(&mut state, key(KeyCode::Tab));
    type_text(&mut state, "eve@x.org");
    handle_key(&mut state, key(KeyCode::Backspace));
    assert_eq!(handle_key(&mut state, key(KeyCode::Enter)), EventAction::Save);
    assert_eq!(state.friends.len(), 1);
    assert_eq!(state.friends[0].name, "Eve");
    assert_eq!(state.friends[0].email.as_deref(), Some("eve@x.or"));
    assert_eq!(state.friends[0].id.len(), 36);
    assert_eq!(state.selected_friend, 0);
    assert_eq!(state.screen, Screen::FriendDetail);
    assert!(state.edit.is_none());
    assert!(state.status_msg.is_none());
}

#[test]
fn control_characters_are_not_typed() {
    let mut state = AppState::new(vec![], build_registry());
    handle_key(&mut state, ch('a'));
    handle_key(&mut state, KeyInput { code: KeyCode::Char('x'), ctrl: true });
    assert_eq!(state.edit.as_ref().unwrap().get("name"), "");
    handle_key(&mut state, key(KeyCode::Esc));
    assert_eq!(state.screen, Screen::FriendsList);
    assert!(state.edit.is_none());
}

#[test]
fn editing_a_friend_saves_into_it() {
    let mut state = AppState::new(vec![Friend::new("Ann".to_string())], build_registry());
    handle_key(&mut state, ch('e'));
    assert_eq!(state.screen, Screen::EditFriend);
    assert_eq!(state.edit.as_ref().unwrap().get("name"), "Ann");
    type_text(&mut state, "ie");
    assert_eq!(handle_key(&mut state, key(KeyCode::Enter)), EventAction::Save);
    assert_eq!(state.friends[0].name, "Annie");
    assert_eq!(state.screen, Screen::FriendDetail);
}

#[test]
fn opening_an_applet_asks_for_a_fetch() {
    let mut f = Friend::new("Ann".to_string());
    f.interests = vec!["chess".to_string()];
    let mut state = AppState::new(vec![f], build_registry());
    handle_key(&mut state, key(KeyCode::Enter));
    let action = handle_key(&mut state, key(KeyCode::Enter));
    assert_eq!(action, EventAction::Fetch("wiki_prep".to_string()));
    assert_eq!(state.screen, Screen::AppletView("wiki_prep".to_string()));
    assert_eq!(state.applet_data, LoadState::Loading);

    let item = AppletItem {
        title: "Chess".to_string(),
        subtitle: None,
        url: Some("https://example.org/chess".to_string()),
    };
    apply_fetch_result(&mut state, "book_recs".to_string(), Ok(vec![]));
    assert_eq!(state.applet_data, LoadState::Loading);
    apply_fetch_result(&mut state, "wiki_prep".to_string(), Ok(vec![item]));
    assert_eq!(
        handle_key(&mut state, key(KeyCode::Enter)),
        EventAction::OpenUrl("https://example.org/chess".to_string())
    );
    handle_key(&mut state, ch('j'));
    assert_eq!(state.applet_scroll, 1);
    assert_eq!(handle_key(&mut state, key(KeyCode::Enter)), EventAction::Nothing);
    assert_eq!(handle_key(&mut state, ch('r')), EventAction::Fetch("wiki_prep".to_string()));
    assert_eq!(state.applet_scroll, 0);
    apply_fetch_result(&mut state, "wiki_prep".to_string(), Err("offline".to_string()));
    assert_eq!(state.applet_data, LoadState::Error("offline".to_string()));
    handle_key(&mut state, key(KeyCode::Esc));
    assert_eq!(state.screen, Screen::FriendDetail);
}

#[test]
fn composing_a_discord_message() {
    let mut f = Friend::new("Ann".to_string());
    f.set_profile(
        "discord",
        Profile::from_pairs(vec![("discord_user_id".to_string(), "42".to_string())]),
    );
    let mut state = AppState::new(vec![f], build_registry());
    handle_key(&mut state, key(KeyCode::Enter));
    assert_eq!(
        handle_key(&mut state, key(KeyCode::Enter)),
        EventAction::Fetch("discord".to_string())
    );
    handle_key(&mut state, ch('c'));
    assert_eq!(state.screen, Screen::ComposeMessage("discord".to_string()));
    assert_eq!(state.compose_draft, "Thinking of you!");
    handle_key(&mut state, key(KeyCode::Backspace));
    type_text(&mut state, "?");
    let action = handle_key(&mut state, key(KeyCode::Enter));
    assert_eq!(
        action,
        EventAction::Send("discord".to_string(), "Thinking of you?".to_string())
    );
    assert_eq!(state.screen, Screen::AppletView("discord".to_string()));
}

#[test]
fn declining_a_delete_keeps_the_friends() {
    let mut state = AppState::new(vec![Friend::new("Ann".to_string())], build_registry());
    handle_key(&mut state, ch('d'));
    assert_eq!(state.screen, Screen::ConfirmDelete);
    assert_eq!(handle_key(&mut state, ch('n')), EventAction::Nothing);
    assert_eq!(state.friends.len(), 1);
    handle_key(&mut state, ch('d'));
    assert_eq!(handle_key(&mut state, ch('Y')), EventAction::Save);
    assert!(state.friends.is_empty());
    assert_eq!(state.selected_friend, 0);
}

#[test]
fn keys_that_cannot_apply_are_refused() {
    let mut state = AppState::new(vec![Friend::new("Ann".to_string())], build_registry());
    state.screen = Screen::ConfirmDelete;
    state.selected_friend = 5;
    assert!(!accepts_key(&state, ch('y')));
    assert!(accepts_key(&state, ch('n')));
    state.selected_friend = 0;
    assert!(accepts_key(&state, ch('Y')));
    state.screen = Screen::AddFriend;
    state.edit = Some(EditState { rows: vec![], cursor: 0 });
    assert!(!accepts_key(&state, key(KeyCode::Tab)));
    assert!(!accepts_key(&state, ch('x')));
    assert!(accepts_key(&state, KeyInput { code: KeyCode::Char('x'), ctrl: true }));
    assert!(accepts_key(&state, key(KeyCode::Esc)));
    state.screen = Screen::AppletView("wiki_prep".to_string());
    state.applet_scroll = usize::MAX;
    assert!(!accepts_key(&state, ch('j')));
    assert!(accepts_key(&state, ch('k')));
}
