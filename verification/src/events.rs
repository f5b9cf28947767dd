//! What a key press does: the next state, and the outside work (quitting,
//! fetching, sending, opening a URL, saving) that the caller then performs.
use vstd::prelude::*;
use crate::app::{AppState, LoadState, LoadView, Screen, ScreenView, StateView};
use crate::app::edit::{
    EditState, EditView, applied, blank_rows, drop_last_char, friend_rows, row_value,
    set_row_value, without_last_char,
};
use crate::apps::{AppletKind, unlocked_in};
use crate::data::friend::{Friend, FriendView, profile_of};
use crate::data::profile::value_or_empty;
use crate::text::{push_char, str_eq, trim, trimmed};

verus! {

/// A key, as far as the application tells keys apart.
#[derive(Debug, Clone, Copy, PartialEq, Eq, Structural)]
pub enum KeyCode {
    Char(char),
    Enter,
    Esc,
    Tab,
    BackTab,
    Backspace,
    Up,
    Down,
    Other,
}

/// A key press: the key and whether Control was held.
#[derive(Debug, Clone, Copy, PartialEq, Eq, Structural)]
pub struct KeyInput {
    pub code: KeyCode,
    pub ctrl: bool,
}

impl KeyInput {
    /// A key pressed without Control.
    pub fn plain(code: KeyCode) -> (res: KeyInput)
        ensures
            res == (KeyInput { code, ctrl: false }),
    {
        KeyInput { code, ctrl: false }
    }
}

/// The outside work a key press asks for.
#[derive(Debug, Clone, PartialEq)]
pub enum EventAction {
    Quit,
    /// Fetch the output of the applet with this key for the selected friend.
    Fetch(String),
    /// Send the message through the applet with this key to the selected friend.
    Send(String, String),
    /// Open this URL in the browser.
    OpenUrl(String),
    /// Write the friends to storage.
    Save,
    Nothing,
}

pub enum ActionView {
    Quit,
    Fetch(Seq<char>),
    Send(Seq<char>, Seq<char>),
    OpenUrl(Seq<char>),
    Save,
    Nothing,
}

impl View for EventAction {
    type V = ActionView;

    open spec fn view(&self) -> ActionView {
        match self {
            EventAction::Quit => ActionView::Quit,
            EventAction::Fetch(k) => ActionView::Fetch(k@),
            EventAction::Send(k, m) => ActionView::Send(k@, m@),
            EventAction::OpenUrl(u) => ActionView::OpenUrl(u@),
            EventAction::Save => ActionView::Save,
            EventAction::Nothing => ActionView::Nothing,
        }
    }
}

/// The states in which `handle_key` takes every key press: the scroll
/// position can still grow, the form (if any) has rows and its cursor is on
/// one, and a non-empty friend list has its selection within it.
pub open spec fn ready(s: StateView) -> bool {
    &&& s.applet_scroll < usize::MAX
    &&& match s.edit {
        Some(e) => e.rows.len() > 0 && 0 <= e.cursor < e.rows.len(),
        None => true,
    }
    &&& s.friends.len() > 0 ==> 0 <= s.selected_friend < s.friends.len()
}

/// The key presses `handle_key` takes in state `s`: all but those that would
/// move the scroll position past its largest value, move the cursor of a
/// form that has no rows, edit a row the cursor is not on, or delete a friend
/// the selection is not on.
pub open spec fn accepts(s: StateView, k: KeyInput) -> bool {
    match s.screen {
        ScreenView::AppletView(_) => (is_key(k, 'j') || k.code == KeyCode::Down) ==> s.applet_scroll
            < usize::MAX,
        ScreenView::EditFriend | ScreenView::AddFriend => match s.edit {
            Some(e) => {
                &&& (k.code == KeyCode::Tab || k.code == KeyCode::Down) ==> e.rows.len() > 0
                &&& (k.code == KeyCode::Backspace || (k.code is Char && !k.ctrl)) ==> 0 <= e.cursor
                    < e.rows.len()
            },
            None => true,
        },
        ScreenView::ConfirmDelete => ((is_key(k, 'y') || is_key(k, 'Y')) && s.friends.len() > 0)
            ==> 0 <= s.selected_friend < s.friends.len(),
        _ => true,
    }
}

pub open spec fn is_key(k: KeyInput, c: char) -> bool {
    k.code == KeyCode::Char(c)
}

pub open spec fn current(s: StateView) -> Option<FriendView> {
    if 0 <= s.selected_friend < s.friends.len() {
        Some(s.friends[s.selected_friend])
    } else {
        None
    }
}

/// The form opened on the selected friend, if there is one.
pub open spec fn edit_current(s: StateView) -> StateView {
    match current(s) {
        Some(f) => StateView {
            edit: Some(EditView { rows: friend_rows(s.applets, f), cursor: 0 }),
            screen: ScreenView::EditFriend,
            ..s
        },
        None => s,
    }
}

pub open spec fn next_index(i: int, len: int) -> int {
    if i + 1 < len {
        i + 1
    } else {
        len - 1
    }
}

pub open spec fn prev_index(i: int) -> int {
    if i > 0 {
        i - 1
    } else {
        0
    }
}

pub open spec fn list_step(s: StateView, k: KeyInput) -> (StateView, ActionView) {
    let n = s.friends.len();
    if is_key(k, 'q') {
        (s, ActionView::Quit)
    } else if is_key(k, 'j') || k.code == KeyCode::Down {
        (
            if n > 0 {
                StateView { selected_friend: next_index(s.selected_friend, n as int), ..s }
            } else {
                s
            },
            ActionView::Nothing,
        )
    } else if is_key(k, 'k') || k.code == KeyCode::Up {
        (StateView { selected_friend: prev_index(s.selected_friend), ..s }, ActionView::Nothing)
    } else if k.code == KeyCode::Enter {
        (
            if n > 0 {
                StateView { screen: ScreenView::FriendDetail, selected_applet: 0, ..s }
            } else {
                s
            },
            ActionView::Nothing,
        )
    } else if is_key(k, 'a') {
        (
            StateView {
                edit: Some(EditView { rows: blank_rows(s.applets), cursor: 0 }),
                screen: ScreenView::AddFriend,
                ..s
            },
            ActionView::Nothing,
        )
    } else if is_key(k, 'e') {
        (edit_current(s), ActionView::Nothing)
    } else if is_key(k, 'd') {
        (
            if n > 0 {
                StateView { screen: ScreenView::ConfirmDelete, ..s }
            } else {
                s
            },
            ActionView::Nothing,
        )
    } else {
        (s, ActionView::Nothing)
    }
}

/// The applets the selected friend has unlocked.
pub open spec fn available(s: StateView) -> Seq<AppletKind> {
    match current(s) {
        Some(f) => unlocked_in(s.applets, f),
        None => Seq::empty(),
    }
}

/// The state once applet `key` is opened and its output requested.
pub open spec fn loading(s: StateView, key: Seq<char>) -> StateView {
    StateView {
        applet_scroll: 0,
        screen: ScreenView::AppletView(key),
        applet_data: LoadView::Loading,
        active_applet_key: Some(key),
        ..s
    }
}

pub open spec fn detail_step(s: StateView, k: KeyInput) -> (StateView, ActionView) {
    let av = available(s);
    if is_key(k, 'q') || k.code == KeyCode::Esc {
        (StateView { screen: ScreenView::FriendsList, ..s }, ActionView::Nothing)
    } else if is_key(k, 'j') || k.code == KeyCode::Down {
        (
            if av.len() > 0 {
                StateView { selected_applet: next_index(s.selected_applet, av.len() as int), ..s }
            } else {
                s
            },
            ActionView::Nothing,
        )
    } else if is_key(k, 'k') || k.code == KeyCode::Up {
        (StateView { selected_applet: prev_index(s.selected_applet), ..s }, ActionView::Nothing)
    } else if k.code == KeyCode::Enter {
        if 0 <= s.selected_applet < av.len() {
            let key = av[s.selected_applet].key_spec();
            (loading(s, key), ActionView::Fetch(key))
        } else {
            (s, ActionView::Nothing)
        }
    } else if is_key(k, 'e') {
        (edit_current(s), ActionView::Nothing)
    } else {
        (s, ActionView::Nothing)
    }
}

/// The message offered when composing: the friend's default message, or a greeting.
pub open spec fn default_draft(s: StateView) -> Seq<char> {
    let m = match current(s) {
        Some(f) => trim(value_or_empty(profile_of(f, "discord"@), "default_message"@)),
        None => Seq::empty(),
    };
    if m.len() > 0 {
        m
    } else {
        "Thinking of you!"@
    }
}

/// What opening the selected item does: its URL, when it has one.
pub open spec fn open_item(s: StateView) -> ActionView {
    match s.applet_data {
        LoadView::Loaded(items) => if 0 <= s.applet_scroll < items.len() {
            match items[s.applet_scroll].url {
                Some(u) => ActionView::OpenUrl(u),
                None => ActionView::Nothing,
            }
        } else {
            ActionView::Nothing
        },
        _ => ActionView::Nothing,
    }
}

pub open spec fn applet_step(s: StateView, key: Seq<char>, k: KeyInput) -> (StateView, ActionView) {
    if k.code == KeyCode::Esc {
        (StateView { screen: ScreenView::FriendDetail, ..s }, ActionView::Nothing)
    } else if is_key(k, 'q') {
        (StateView { screen: ScreenView::FriendsList, ..s }, ActionView::Nothing)
    } else if is_key(k, 'r') {
        (
            StateView {
                applet_scroll: 0,
                applet_data: LoadView::Loading,
                active_applet_key: Some(key),
                ..s
            },
            ActionView::Fetch(key),
        )
    } else if is_key(k, 'j') || k.code == KeyCode::Down {
        (StateView { applet_scroll: s.applet_scroll + 1, ..s }, ActionView::Nothing)
    } else if is_key(k, 'k') || k.code == KeyCode::Up {
        (StateView { applet_scroll: prev_index(s.applet_scroll), ..s }, ActionView::Nothing)
    } else if k.code == KeyCode::Enter {
        (s, open_item(s))
    } else if is_key(k, 'c') && key == "discord"@ {
        (
            StateView {
                screen: ScreenView::ComposeMessage(key),
                compose_draft: default_draft(s),
                ..s
            },
            ActionView::Nothing,
        )
    } else {
        (s, ActionView::Nothing)
    }
}

pub open spec fn compose_step(s: StateView, key: Seq<char>, k: KeyInput) -> (StateView, ActionView) {
    if k.code == KeyCode::Esc {
        (StateView { screen: ScreenView::AppletView(key), ..s }, ActionView::Nothing)
    } else if k.code == KeyCode::Enter {
        (
            StateView {
                screen: ScreenView::AppletView(key),
                applet_data: LoadView::Loading,
                active_applet_key: Some(key),
                ..s
            },
            ActionView::Send(key, s.compose_draft),
        )
    } else if k.code == KeyCode::Backspace {
        (StateView { compose_draft: drop_last_char(s.compose_draft), ..s }, ActionView::Nothing)
    } else {
        match k.code {
            KeyCode::Char(c) => if k.ctrl {
                (s, ActionView::Nothing)
            } else {
                (StateView { compose_draft: s.compose_draft.push(c), ..s }, ActionView::Nothing)
            },
            _ => (s, ActionView::Nothing),
        }
    }
}

/// The form after a key that edits it (not Escape or Enter).
pub open spec fn form_step(e: EditView, k: KeyInput) -> EditView {
    if k.code == KeyCode::Tab || k.code == KeyCode::Down {
        EditView { cursor: next_index(e.cursor, e.rows.len() as int), ..e }
    } else if k.code == KeyCode::BackTab || k.code == KeyCode::Up {
        EditView { cursor: prev_index(e.cursor), ..e }
    } else if k.code == KeyCode::Backspace {
        EditView { rows: set_row_value(e.rows, e.cursor, drop_last_char(e.rows[e.cursor].value)), ..e }
    } else {
        match k.code {
            KeyCode::Char(c) => if k.ctrl {
                e
            } else {
                EditView { rows: set_row_value(e.rows, e.cursor, e.rows[e.cursor].value.push(c)), ..e }
            },
            _ => e,
        }
    }
}

/// A friend with id `id`, name `name` and nothing else.
pub open spec fn fresh_friend(id: Seq<char>, name: Seq<char>) -> FriendView {
    FriendView {
        id,
        name,
        email: None,
        notes: None,
        interests: Seq::empty(),
        job_hunt: None,
        book_profile: None,
        extra: Map::empty(),
    }
}

/// Saving the form: refused without a name; otherwise the form is saved into
/// a new friend (when adding) or the selected one, the detail screen shown,
/// and the friends written to storage.
pub open spec fn saved(s: StateView, is_add: bool, t: StateView, a: ActionView) -> bool {
    match s.edit {
        None => t == s && a == ActionView::Nothing,
        Some(e) => {
            let name = trim(row_value(e.rows, "name"@));
            if name.len() == 0 {
                t == (StateView { status_msg: Some("Name is required."@), ..s }) && a
                    == ActionView::Nothing
            } else if is_add {
                let n = s.friends.len();
                &&& a == ActionView::Save
                &&& t.friends.len() == n + 1
                &&& t.friends.take(n as int) == s.friends
                &&& crate::data::friend::is_uuid_v4_text(t.friends[n as int].id)
                &&& t.friends[n as int] == applied(e.rows, fresh_friend(t.friends[n as int].id, name))
                &&& t == (StateView {
                    friends: t.friends,
                    selected_friend: n as int,
                    screen: ScreenView::FriendDetail,
                    selected_applet: 0,
                    status_msg: None,
                    edit: None,
                    ..s
                })
            } else {
                &&& a == ActionView::Save
                &&& t == (StateView {
                    friends: match current(s) {
                        Some(f) => s.friends.update(s.selected_friend, applied(e.rows, f)),
                        None => s.friends,
                    },
                    screen: ScreenView::FriendDetail,
                    status_msg: None,
                    edit: None,
                    ..s
                })
            }
        },
    }
}

pub open spec fn edit_step(s: StateView, is_add: bool, k: KeyInput, t: StateView, a: ActionView) -> bool {
    if k.code == KeyCode::Esc {
        t == (StateView {
            edit: None,
            screen: if is_add {
                ScreenView::FriendsList
            } else {
                ScreenView::FriendDetail
            },
            ..s
        }) && a == ActionView::Nothing
    } else if k.code == KeyCode::Enter {
        saved(s, is_add, t, a)
    } else {
        a == ActionView::Nothing && t == match s.edit {
            Some(e) => StateView { edit: Some(form_step(e, k)), ..s },
            None => s,
        }
    }
}

pub open spec fn delete_step(s: StateView, k: KeyInput) -> (StateView, ActionView) {
    let n = s.friends.len();
    if is_key(k, 'y') || is_key(k, 'Y') {
        if n > 0 {
            let rest = s.friends.remove(s.selected_friend);
            let sel = if s.selected_friend >= rest.len() && rest.len() > 0 {
                rest.len() - 1
            } else if rest.len() == 0 {
                0
            } else {
                s.selected_friend
            };
            (
                StateView {
                    friends: rest,
                    selected_friend: sel,
                    screen: ScreenView::FriendsList,
                    ..s
                },
                ActionView::Save,
            )
        } else {
            (StateView { screen: ScreenView::FriendsList, ..s }, ActionView::Nothing)
        }
    } else if is_key(k, 'n') || is_key(k, 'N') || k.code == KeyCode::Esc {
        (StateView { screen: ScreenView::FriendsList, ..s }, ActionView::Nothing)
    } else {
        (s, ActionView::Nothing)
    }
}

/// State `t` and action `a` are what key `k` does to state `s`.
pub open spec fn handled(s: StateView, k: KeyInput, t: StateView, a: ActionView) -> bool {
    match s.screen {
        ScreenView::FriendsList => (t, a) == list_step(s, k),
        ScreenView::FriendDetail => (t, a) == detail_step(s, k),
        ScreenView::EditFriend => edit_step(s, false, k, t, a),
        ScreenView::AddFriend => edit_step(s, true, k, t, a),
        ScreenView::AppletView(key) => (t, a) == applet_step(s, key, k),
        ScreenView::ComposeMessage(key) => (t, a) == compose_step(s, key, k),
        ScreenView::ConfirmDelete => (t, a) == delete_step(s, k),
    }
}

fn is_char(k: KeyInput, c: char) -> (res: bool)
    ensures
        res == is_key(k, c),
{
    match k.code {
        KeyCode::Char(x) => x == c,
        _ => false,
    }
}

fn edit_current_exec(state: &mut AppState)
    ensures
        final(state)@ == edit_current(old(state)@),
{
    if state.selected_friend < state.friends.len() {
        let e = EditState::from_friend_and_registry(&state.friends[state.selected_friend], &state.registry);
        state.edit = Some(e);
        state.screen = Screen::EditFriend;
    }
}

fn handle_list(state: &mut AppState, key: KeyInput) -> (res: EventAction)
    requires
        old(state)@.screen == ScreenView::FriendsList,
    ensures
        (final(state)@, res@) == list_step(old(state)@, key),
{
    let n = state.friends.len();
    if is_char(key, 'q') {
        return EventAction::Quit;
    } else if is_char(key, 'j') || key.code == KeyCode::Down {
        if n > 0 {
            state.selected_friend = if state.selected_friend < n - 1 {
                state.selected_friend + 1
            } else {
                n - 1
            };
        }
    } else if is_char(key, 'k') || key.code == KeyCode::Up {
        state.selected_friend = if state.selected_friend > 0 {
            state.selected_friend - 1
        } else {
            0
        };
    } else if key.code == KeyCode::Enter {
        if n > 0 {
            state.screen = Screen::FriendDetail;
            state.selected_applet = 0;
        }
    } else if is_char(key, 'a') {
        state.edit = Some(EditState::blank_for_registry(&state.registry));
        state.screen = Screen::AddFriend;
    } else if is_char(key, 'e') {
        edit_current_exec(state);
    } else if is_char(key, 'd') {
        if n > 0 {
            state.screen = Screen::ConfirmDelete;
        }
    }
    EventAction::Nothing
}

/// Opens applet `kind`: its output screen, scrolled to the top, waiting for a fetch.
fn open_applet(state: &mut AppState, kind: AppletKind) -> (res: EventAction)
    ensures
        final(state)@ == loading(old(state)@, kind.key_spec()),
        res@ == ActionView::Fetch(kind.key_spec()),
{
    state.applet_scroll = 0;
    state.screen = Screen::AppletView(kind.key().to_string());
    state.applet_data = LoadState::Loading;
    state.active_applet_key = Some(kind.key().to_string());
    EventAction::Fetch(kind.key().to_string())
}

fn handle_detail(state: &mut AppState, key: KeyInput) -> (res: EventAction)
    requires
        old(state)@.screen == ScreenView::FriendDetail,
    ensures
        (final(state)@, res@) == detail_step(old(state)@, key),
{
    let applets = if state.selected_friend < state.friends.len() {
        state.registry.available_for(&state.friends[state.selected_friend])
    } else {
        Vec::new()
    };
    assert(applets@ == available(state@));
    if is_char(key, 'q') || key.code == KeyCode::Esc {
        state.screen = Screen::FriendsList;
    } else if is_char(key, 'j') || key.code == KeyCode::Down {
        if applets.len() > 0 {
            state.selected_applet = if state.selected_applet < applets.len() - 1 {
                state.selected_applet + 1
            } else {
                applets.len() - 1
            };
        }
    } else if is_char(key, 'k') || key.code == KeyCode::Up {
        state.selected_applet = if state.selected_applet > 0 {
            state.selected_applet - 1
        } else {
            0
        };
    } else if key.code == KeyCode::Enter {
        if state.selected_applet < applets.len() {
            let kind = applets[state.selected_applet];
            return open_applet(state, kind);
        }
    } else if is_char(key, 'e') {
        edit_current_exec(state);
    }
    EventAction::Nothing
}

fn default_draft_exec(state: &AppState) -> (res: String)
    ensures
        res@ == default_draft(state@),
{
    let m = if state.selected_friend < state.friends.len() {
        let p = state.friends[state.selected_friend].profile_for("discord");
        let raw = p.get_or_empty("default_message");
        trimmed(raw.as_str())
    } else {
        String::new()
    };
    if m.as_str().is_empty() {
        "Thinking of you!".to_string()
    } else {
        m
    }
}

fn open_item_exec(state: &AppState) -> (res: EventAction)
    ensures
        res@ == open_item(state@),
{
    match &state.applet_data {
        LoadState::Loaded(items) => {
            if state.applet_scroll < items.len() {
                match &items[state.applet_scroll].url {
                    Some(u) => EventAction::OpenUrl(u.clone()),
                    None => EventAction::Nothing,
                }
            } else {
                EventAction::Nothing
            }
        },
        _ => EventAction::Nothing,
    }
}

fn handle_applet(state: &mut AppState, key: KeyInput, applet: String) -> (res: EventAction)
    requires
        old(state)@.screen == ScreenView::AppletView(applet@),
        accepts(old(state)@, key),
    ensures
        (final(state)@, res@) == applet_step(old(state)@, applet@, key),
{
    if key.code == KeyCode::Esc {
        state.screen = Screen::FriendDetail;
    } else if is_char(key, 'q') {
        state.screen = Screen::FriendsList;
    } else if is_char(key, 'r') {
        state.applet_scroll = 0;
        state.applet_data = LoadState::Loading;
        state.active_applet_key = Some(applet.clone());
        return EventAction::Fetch(applet);
    } else if is_char(key, 'j') || key.code == KeyCode::Down {
        state.applet_scroll = state.applet_scroll + 1;
    } else if is_char(key, 'k') || key.code == KeyCode::Up {
        state.applet_scroll = if state.applet_scroll > 0 {
            state.applet_scroll - 1
        } else {
            0
        };
    } else if key.code == KeyCode::Enter {
        return open_item_exec(state);
    } else if is_char(key, 'c') && str_eq(applet.as_str(), "discord") {
        let draft = default_draft_exec(state);
        state.screen = Screen::ComposeMessage(applet);
        state.compose_draft = draft;
    }
    EventAction::Nothing
}

fn handle_compose(state: &mut AppState, key: KeyInput, applet: String) -> (res: EventAction)
    requires
        old(state)@.screen == ScreenView::ComposeMessage(applet@),
    ensures
        (final(state)@, res@) == compose_step(old(state)@, applet@, key),
{
    if key.code == KeyCode::Esc {
        state.screen = Screen::AppletView(applet);
    } else if key.code == KeyCode::Enter {
        let message = state.compose_draft.clone();
        state.screen = Screen::AppletView(applet.clone());
        state.applet_data = LoadState::Loading;
        state.active_applet_key = Some(applet.clone());
        return EventAction::Send(applet, message);
    } else if key.code == KeyCode::Backspace {
        state.compose_draft = without_last_char(state.compose_draft.as_str());
    } else {
        match key.code {
            KeyCode::Char(c) => {
                if !key.ctrl {
                    push_char(&mut state.compose_draft, c);
                }
            },
            _ => {},
        }
    }
    EventAction::Nothing
}

fn save_edit(state: &mut AppState, is_add: bool) -> (res: EventAction)
    ensures
        saved(old(state)@, is_add, final(state)@, res@),
{
    let taken = state.edit.take();
    let edit = match taken {
        Some(e) => e,
        None => {
            return EventAction::Nothing;
        },
    };
    let name = trimmed(edit.get("name"));
    if name.as_str().is_empty() {
        state.edit = Some(edit);
        state.status_msg = Some("Name is required.".to_string());
        return EventAction::Nothing;
    }
    let ghost rows = edit@.rows;
    assert(old(state)@.edit == Some(edit@));
    if is_add {
        let mut friend = Friend::new(name);
        assert(friend@.interests =~= Seq::<Seq<char>>::empty());
        assert(friend@ == fresh_friend(friend@.id, trim(row_value(rows, "name"@))));
        let ghost pre = friend@;
        edit.apply_to_friend(&mut friend);
        proof {
            crate::app::edit::lemma_applied_keeps_id(rows, pre);
        }
        let ghost before = state.friends@;
        state.friends.push(friend);
        state.selected_friend = state.friends.len() - 1;
        state.screen = Screen::FriendDetail;
        state.selected_applet = 0;
        proof {
            assert(crate::app::friend_views(state.friends@).take(before.len() as int)
                =~= crate::app::friend_views(before));
        }
    } else {
        if state.selected_friend < state.friends.len() {
            let i = state.selected_friend;
            let ghost before = state.friends@;
            let f = &mut state.friends[i];
            edit.apply_to_friend(f);
            assert(crate::app::friend_views(state.friends@) =~= crate::app::friend_views(before).update(
                i as int,
                state.friends@[i as int]@,
            ));
        }
        state.screen = Screen::FriendDetail;
    }
    state.status_msg = None;
    EventAction::Save
}

fn handle_edit(state: &mut AppState, key: KeyInput, is_add: bool) -> (res: EventAction)
    requires
        old(state)@.screen == ScreenView::EditFriend || old(state)@.screen == ScreenView::AddFriend,
        accepts(old(state)@, key),
    ensures
        edit_step(old(state)@, is_add, key, final(state)@, res@),
{
    if key.code == KeyCode::Esc {
        state.edit = None;
        state.screen = if is_add {
            Screen::FriendsList
        } else {
            Screen::FriendDetail
        };
        EventAction::Nothing
    } else if key.code == KeyCode::Enter {
        save_edit(state, is_add)
    } else {
        match &mut state.edit {
            Some(e) => {
                if key.code == KeyCode::Tab || key.code == KeyCode::Down {
                    e.cursor_down();
                } else if key.code == KeyCode::BackTab || key.code == KeyCode::Up {
                    e.cursor_up();
                } else if key.code == KeyCode::Backspace {
                    e.delete_char();
                } else {
                    match key.code {
                        KeyCode::Char(c) => {
                            if !key.ctrl {
                                e.type_char(c);
                            }
                        },
                        _ => {},
                    }
                }
            },
            None => {},
        }
        EventAction::Nothing
    }
}

fn handle_confirm_delete(state: &mut AppState, key: KeyInput) -> (res: EventAction)
    requires
        old(state)@.screen == ScreenView::ConfirmDelete,
        accepts(old(state)@, key),
    ensures
        (final(state)@, res@) == delete_step(old(state)@, key),
{
    if is_char(key, 'y') || is_char(key, 'Y') {
        let n = state.friends.len();
        if n > 0 {
            let ghost before = state.friends@;
            let _removed = state.friends.remove(state.selected_friend);
            let len = state.friends.len();
            if state.selected_friend >= len && len > 0 {
                state.selected_friend = len - 1;
            } else if len == 0 {
                state.selected_friend = 0;
            }
            state.screen = Screen::FriendsList;
            assert(crate::app::friend_views(state.friends@) =~= crate::app::friend_views(before).remove(
                old(state).selected_friend as int,
            ));
            return EventAction::Save;
        }
        state.screen = Screen::FriendsList;
    } else if is_char(key, 'n') || is_char(key, 'N') || key.code == KeyCode::Esc {
        state.screen = Screen::FriendsList;
    }
    EventAction::Nothing
}

/// Whether `handle_key` takes `key` in `state` (see `accepts`).
pub fn accepts_key(state: &AppState, key: KeyInput) -> (res: bool)
    ensures
        res == accepts(state@, key),
{
    match &state.screen {
        Screen::AppletView(_) => !(is_char(key, 'j') || key.code == KeyCode::Down)
            || state.applet_scroll < usize::MAX,
        Screen::EditFriend | Screen::AddFriend => match &state.edit {
            Some(e) => {
                let moves = key.code == KeyCode::Tab || key.code == KeyCode::Down;
                let types = key.code == KeyCode::Backspace || (match key.code {
                    KeyCode::Char(_) => !key.ctrl,
                    _ => false,
                });
                (!moves || e.rows.len() > 0) && (!types || e.cursor < e.rows.len())
            },
            None => true,
        },
        Screen::ConfirmDelete => !((is_char(key, 'y') || is_char(key, 'Y')) && state.friends.len() > 0)
            || state.selected_friend < state.friends.len(),
        _ => true,
    }
}

/// What key press `key` does to `state`; returns the outside work to perform.
pub fn handle_key(state: &mut AppState, key: KeyInput) -> (res: EventAction)
    requires
        accepts(old(state)@, key),
    ensures
        handled(old(state)@, key, final(state)@, res@),
{
    match &state.screen {
        Screen::FriendsList => handle_list(state, key),
        Screen::FriendDetail => handle_detail(state, key),
        Screen::EditFriend => handle_edit(state, key, false),
        Screen::AddFriend => handle_edit(state, key, true),
        Screen::AppletView(k) => {
            let k = k.clone();
            handle_applet(state, key, k)
        },
        Screen::ComposeMessage(k) => {
            let k = k.clone();
            handle_compose(state, key, k)
        },
        Screen::ConfirmDelete => handle_confirm_delete(state, key),
    }
}

/// A key press keeps the friend selection inside a non-empty friend list and
/// the form's cursor on one of its rows: every key press is accepted in such
/// a state, and, while the scroll position can still grow by one, every
/// state that `handle_key` leads to is again such a state.
pub proof fn lemma_handled_keeps_ready(s: StateView, k: KeyInput, t: StateView, a: ActionView)
    requires
        ready(s),
        s.applet_scroll + 1 < usize::MAX,
        handled(s, k, t, a),
    ensures
        accepts(s, k),
        ready(t),
{
    assert forall|f: FriendView| #[trigger] friend_rows(s.applets, f).len() >= 3 by {}
    assert(blank_rows(s.applets).len() >= 3);
    match s.screen {
        ScreenView::ConfirmDelete => {
            if s.friends.len() > 0 {
                assert(s.friends.remove(s.selected_friend).len() == s.friends.len() - 1);
            }
        },
        _ => {},
    }
}

/// The selection of a friends list: on a friend, or at the top of an empty list.
pub open spec fn selection_ok(s: StateView) -> bool {
    if s.friends.len() == 0 {
        s.selected_friend == 0
    } else {
        0 <= s.selected_friend < s.friends.len()
    }
}

/// On the friends list a key press keeps the selection on a friend (or at
/// the top of an empty list) and the friends as they are; it quits exactly
/// on `q`, asks for no other outside work, and opens the detail or delete
/// screen only when there are friends.
pub proof fn lemma_list_step(s: StateView, k: KeyInput)
    requires
        s.screen == ScreenView::FriendsList,
        selection_ok(s),
    ensures
        selection_ok(list_step(s, k).0),
        list_step(s, k).0.friends == s.friends,
        list_step(s, k).1 == ActionView::Quit <==> is_key(k, 'q'),
        list_step(s, k).1 == ActionView::Quit || list_step(s, k).1 == ActionView::Nothing,
        list_step(s, k).0.screen == ScreenView::FriendDetail || list_step(s, k).0.screen
            == ScreenView::ConfirmDelete ==> s.friends.len() > 0,
{
}

/// On the detail screen `j`/Down moves the applet selection down by one and
/// `k`/Up up by one, staying within the applets the selected friend has
/// unlocked; Enter on one of them shows its screen and asks to fetch its
/// output; none of these changes the friends.
pub proof fn lemma_detail_keys(s: StateView, k: KeyInput, t: StateView, a: ActionView)
    requires
        s.screen == ScreenView::FriendDetail,
        handled(s, k, t, a),
    ensures
        t.friends == s.friends,
        (is_key(k, 'j') || k.code == KeyCode::Down) && available(s).len() > 0 ==> t.selected_applet
            == if s.selected_applet + 1 < available(s).len() {
            s.selected_applet + 1
        } else {
            available(s).len() - 1
        },
        (is_key(k, 'j') || k.code == KeyCode::Down) ==> a == ActionView::Nothing && t.screen
            == s.screen,
        (is_key(k, 'k') || k.code == KeyCode::Up) ==> t.selected_applet == if s.selected_applet
            > 0 {
            s.selected_applet - 1
        } else {
            0
        },
        k.code == KeyCode::Enter && 0 <= s.selected_applet < available(s).len() ==> {
            let key = available(s)[s.selected_applet].key_spec();
            a == ActionView::Fetch(key) && t.screen == ScreenView::AppletView(key)
                && t.selected_applet == s.selected_applet
        },
{
}

/// When composing, a typed character (without Control) is appended to the
/// draft, Backspace removes the draft's last character, and Enter asks to
/// send the draft through the applet being composed for.
pub proof fn lemma_compose_keys(s: StateView, k: KeyInput, t: StateView, a: ActionView)
    requires
        s.screen matches ScreenView::ComposeMessage(_),
        handled(s, k, t, a),
    ensures
        forall|c: char|
            k.code == KeyCode::Char(c) && !k.ctrl ==> t.compose_draft == s.compose_draft.push(c) && a
                == ActionView::Nothing,
        k.code == KeyCode::Backspace ==> t.compose_draft.len() == if s.compose_draft.len() > 0 {
            s.compose_draft.len() - 1
        } else {
            0
        } && t.compose_draft == s.compose_draft.take(t.compose_draft.len() as int),
        k.code == KeyCode::Enter ==> a == ActionView::Send(
            s.screen->ComposeMessage_0,
            s.compose_draft,
        ),
        t.friends == s.friends,
{
    if k.code == KeyCode::Backspace && s.compose_draft.len() > 0 {
        assert(s.compose_draft.drop_last() =~= s.compose_draft.take(s.compose_draft.len() - 1));
    }
}

/// In the add or edit form, a typed character (without Control) is appended
/// to the value of the row under the cursor and leaves every other row as it
/// was; Tab/Down moves the cursor down by one, staying on the last row.
pub proof fn lemma_form_keys(s: StateView, k: KeyInput, t: StateView, a: ActionView)
    requires
        s.screen == ScreenView::EditFriend || s.screen == ScreenView::AddFriend,
        s.edit is Some,
        accepts(s, k),
        handled(s, k, t, a),
    ensures
        forall|c: char|
            k.code == KeyCode::Char(c) && !k.ctrl ==> {
                let e = s.edit->Some_0;
                let e2 = t.edit->Some_0;
                &&& t.edit is Some
                &&& e2.rows.len() == e.rows.len()
                &&& e2.rows[e.cursor].value == e.rows[e.cursor].value.push(c)
                &&& e2.rows[e.cursor].key == e.rows[e.cursor].key
                &&& forall|i: int| 0 <= i < e.rows.len() && i != e.cursor ==> #[trigger] e2.rows[i] == e.rows[i]
                &&& e2.cursor == e.cursor
            },
        k.code == KeyCode::Tab || k.code == KeyCode::Down ==> {
            let e = s.edit->Some_0;
            let e2 = t.edit->Some_0;
            &&& t.edit is Some
            &&& e2.rows == e.rows
            &&& e2.cursor == if e.cursor + 1 < e.rows.len() {
                e.cursor + 1
            } else {
                e.rows.len() - 1
            }
        },
{
}

} // verus!
