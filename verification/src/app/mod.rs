//! Application state: screens, the friends, the form being edited and what
//! the open applet shows.
use vstd::prelude::*;
use crate::apps::{AppletItem, AppletKind, AppletRegistry, ItemView, item_views};
use crate::data::friend::{Friend, FriendView, opt_view};

pub mod edit;
pub mod roundtrip;

pub use edit::{EditRow, EditState, EditView};

verus! {

/// The screen the application shows.
#[derive(Debug, Clone, PartialEq)]
pub enum Screen {
    FriendsList,
    FriendDetail,
    EditFriend,
    AddFriend,
    /// The output of the applet with this key.
    AppletView(String),
    /// Writing a message to send through the applet with this key.
    ComposeMessage(String),
    ConfirmDelete,
}

pub enum ScreenView {
    FriendsList,
    FriendDetail,
    EditFriend,
    AddFriend,
    AppletView(Seq<char>),
    ComposeMessage(Seq<char>),
    ConfirmDelete,
}

impl View for Screen {
    type V = ScreenView;

    open spec fn view(&self) -> ScreenView {
        match self {
            Screen::FriendsList => ScreenView::FriendsList,
            Screen::FriendDetail => ScreenView::FriendDetail,
            Screen::EditFriend => ScreenView::EditFriend,
            Screen::AddFriend => ScreenView::AddFriend,
            Screen::AppletView(k) => ScreenView::AppletView(k@),
            Screen::ComposeMessage(k) => ScreenView::ComposeMessage(k@),
            Screen::ConfirmDelete => ScreenView::ConfirmDelete,
        }
    }
}

/// Where a fetch for the open applet stands.
#[derive(Debug, Clone, PartialEq)]
pub enum LoadState<T> {
    Idle,
    Loading,
    Loaded(T),
    Error(String),
}

pub enum LoadView {
    Idle,
    Loading,
    Loaded(Seq<ItemView>),
    Error(Seq<char>),
}

pub open spec fn load_view(l: LoadState<Vec<AppletItem>>) -> LoadView {
    match l {
        LoadState::Idle => LoadView::Idle,
        LoadState::Loading => LoadView::Loading,
        LoadState::Loaded(v) => LoadView::Loaded(item_views(v@)),
        LoadState::Error(e) => LoadView::Error(e@),
    }
}

/// Everything the application shows and edits.
pub struct AppState {
    pub screen: Screen,
    pub friends: Vec<Friend>,
    pub selected_friend: usize,
    pub selected_applet: usize,
    pub edit: Option<EditState>,
    pub applet_data: LoadState<Vec<AppletItem>>,
    pub active_applet_key: Option<String>,
    pub applet_scroll: usize,
    pub status_msg: Option<String>,
    pub compose_draft: String,
    pub registry: AppletRegistry,
}

pub struct StateView {
    pub screen: ScreenView,
    pub friends: Seq<FriendView>,
    pub selected_friend: int,
    pub selected_applet: int,
    pub edit: Option<EditView>,
    pub applet_data: LoadView,
    pub active_applet_key: Option<Seq<char>>,
    pub applet_scroll: int,
    pub status_msg: Option<Seq<char>>,
    pub compose_draft: Seq<char>,
    pub applets: Seq<AppletKind>,
}

pub open spec fn friend_views(v: Seq<Friend>) -> Seq<FriendView> {
    v.map_values(|f: Friend| f@)
}

impl View for AppState {
    type V = StateView;

    open spec fn view(&self) -> StateView {
        StateView {
            screen: self.screen@,
            friends: friend_views(self.friends@),
            selected_friend: self.selected_friend as int,
            selected_applet: self.selected_applet as int,
            edit: match self.edit {
                Some(e) => Some(e@),
                None => None,
            },
            applet_data: load_view(self.applet_data),
            active_applet_key: opt_view(self.active_applet_key),
            applet_scroll: self.applet_scroll as int,
            status_msg: opt_view(self.status_msg),
            compose_draft: self.compose_draft@,
            applets: self.registry.kinds(),
        }
    }
}

impl AppState {
    /// The friends list, nothing selected beyond the first entry, no form,
    /// no applet output.
    pub fn new(friends: Vec<Friend>, registry: AppletRegistry) -> (res: AppState)
        ensures
            res@ == (StateView {
                screen: ScreenView::FriendsList,
                friends: friend_views(friends@),
                selected_friend: 0,
                selected_applet: 0,
                edit: None,
                applet_data: LoadView::Idle,
                active_applet_key: None,
                applet_scroll: 0,
                status_msg: None,
                compose_draft: Seq::empty(),
                applets: registry.kinds(),
            }),
    {
        AppState {
            screen: Screen::FriendsList,
            friends,
            selected_friend: 0,
            selected_applet: 0,
            edit: None,
            applet_data: LoadState::Idle,
            active_applet_key: None,
            applet_scroll: 0,
            status_msg: None,
            compose_draft: String::new(),
            registry,
        }
    }

    /// The selected friend, if the selection is within the list.
    pub fn current_friend(&self) -> (res: Option<&Friend>)
        ensures
            match res {
                Some(f) => self.selected_friend < self.friends.len() && *f
                    == self.friends@[self.selected_friend as int],
                None => self.selected_friend >= self.friends.len(),
            },
    {
        if self.selected_friend < self.friends.len() {
            Some(&self.friends[self.selected_friend])
        } else {
            None
        }
    }

    /// The selected friend, to be changed in place.
    pub fn current_friend_mut(&mut self) -> (res: Option<&mut Friend>)
        ensures
            match res {
                Some(f) => {
                    &&& old(self).selected_friend < old(self).friends.len()
                    &&& *f == old(self).friends@[old(self).selected_friend as int]
                    &&& final(self).friends@ == old(self).friends@.update(
                        old(self).selected_friend as int,
                        *final(f),
                    )
                    &&& *final(self) == (AppState { friends: final(self).friends, ..*old(self) })
                },
                None => {
                    &&& old(self).selected_friend >= old(self).friends.len()
                    &&& *final(self) == *old(self)
                },
            },
    {
        if self.selected_friend < self.friends.len() {
            let i = self.selected_friend;
            Some(&mut self.friends[i])
        } else {
            None
        }
    }
}

/// Records what a fetch for applet `key` produced, when that applet is still
/// the open one; otherwise the result is dropped.
pub fn apply_fetch_result(state: &mut AppState, key: String, result: Result<Vec<AppletItem>, String>)
    ensures
        if old(state)@.active_applet_key == Some(key@) {
            final(state)@ == (StateView {
                applet_data: match result {
                    Ok(items) => LoadView::Loaded(item_views(items@)),
                    Err(e) => LoadView::Error(e@),
                },
                ..old(state)@
            })
        } else {
            final(state)@ == old(state)@
        },
{
    let is_active = match &state.active_applet_key {
        Some(k) => *k == key,
        None => false,
    };
    if !is_active {
        return;
    }
    state.applet_data = match result {
        Ok(items) => LoadState::Loaded(items),
        Err(e) => LoadState::Error(e),
    };
}

} // verus!
