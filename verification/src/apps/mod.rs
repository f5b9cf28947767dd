//! The applets, the profile fields each one asks for, and when a friend's
//! profile unlocks them.
use vstd::prelude::*;
use crate::data::friend::{Friend, FriendView, profile_of};
use crate::data::profile::{Profile, value_or_empty};
use crate::date::{parse_ymd, ymd_parse};
use crate::text::{csv_items, parse_csv, str_eq, trim, trimmed};

pub mod birthday;
pub mod book_recs;
pub mod discord;
pub mod job_feed;
pub mod wiki_prep;

verus! {

/// The applets of the application.
#[derive(Debug, Clone, Copy, PartialEq, Eq, Structural)]
pub enum AppletKind {
    JobFeed,
    BookRecs,
    WikiPrep,
    Birthday,
    Discord,
}

/// One line of an applet's output.
#[derive(Debug, Clone, PartialEq)]
pub struct AppletItem {
    pub title: String,
    pub subtitle: Option<String>,
    pub url: Option<String>,
}

pub struct ItemView {
    pub title: Seq<char>,
    pub subtitle: Option<Seq<char>>,
    pub url: Option<Seq<char>>,
}

impl View for AppletItem {
    type V = ItemView;

    open spec fn view(&self) -> ItemView {
        ItemView {
            title: self.title@,
            subtitle: crate::data::friend::opt_view(self.subtitle),
            url: crate::data::friend::opt_view(self.url),
        }
    }
}

pub open spec fn item_views(v: Seq<AppletItem>) -> Seq<ItemView> {
    v.map_values(|i: AppletItem| i@)
}

/// A profile field that an applet asks for.
#[derive(Debug, Clone, PartialEq)]
pub struct FieldDef {
    pub key: String,
    pub label: String,
    pub hint: Option<String>,
    pub required: bool,
}

pub struct FieldView {
    pub key: Seq<char>,
    pub label: Seq<char>,
    pub hint: Option<Seq<char>>,
    pub required: bool,
}

impl View for FieldDef {
    type V = FieldView;

    open spec fn view(&self) -> FieldView {
        FieldView {
            key: self.key@,
            label: self.label@,
            hint: crate::data::friend::opt_view(self.hint),
            required: self.required,
        }
    }
}

pub open spec fn field_views(v: Seq<FieldDef>) -> Seq<FieldView> {
    v.map_values(|f: FieldDef| f@)
}

pub open spec fn fv(key: Seq<char>, label: Seq<char>, hint: Option<Seq<char>>, required: bool) -> FieldView {
    FieldView { key, label, hint, required }
}

impl FieldDef {
    /// A field the applet needs.
    pub fn required(key: &str, label: &str) -> (res: FieldDef)
        ensures
            res@ == fv(key@, label@, None, true),
    {
        FieldDef { key: key.to_string(), label: label.to_string(), hint: None, required: true }
    }

    /// A field the applet can do without, with an optional input hint.
    pub fn optional(key: &str, label: &str, hint: Option<&str>) -> (res: FieldDef)
        ensures
            res@ == fv(
                key@,
                label@,
                match hint {
                    Some(h) => Some(h@),
                    None => None,
                },
                false,
            ),
    {
        let h = match hint {
            Some(h) => Some(h.to_string()),
            None => None,
        };
        FieldDef { key: key.to_string(), label: label.to_string(), hint: h, required: false }
    }
}

impl AppletKind {
    pub open spec fn key_spec(self) -> Seq<char> {
        match self {
            AppletKind::JobFeed => "job_feed"@,
            AppletKind::BookRecs => "book_recs"@,
            AppletKind::WikiPrep => "wiki_prep"@,
            AppletKind::Birthday => "birthday"@,
            AppletKind::Discord => "discord"@,
        }
    }

    pub open spec fn label_spec(self) -> Seq<char> {
        match self {
            AppletKind::JobFeed => "Job Feed"@,
            AppletKind::BookRecs => "Book Recs"@,
            AppletKind::WikiPrep => "Conversation Prep"@,
            AppletKind::Birthday => "Birthday Tracker"@,
            AppletKind::Discord => "Discord DM"@,
        }
    }

    /// The fields the applet asks for, in the order they are edited.
    pub open spec fn fields_spec(self) -> Seq<FieldView> {
        match self {
            AppletKind::JobFeed => seq![
                fv("desired_role"@, "Desired Role"@, None, true),
                fv("skills"@, "Skills"@, Some("comma-separated"@), false),
                fv("location"@, "Location"@, None, false),
                fv("remote_preference"@, "Remote Pref"@, Some("remote/hybrid/onsite"@), false),
                fv("experience_level"@, "Level"@, Some("junior/mid/senior"@), false),
            ],
            AppletKind::BookRecs => seq![
                fv("genres"@, "Genres"@, Some("comma-separated"@), false),
                fv("authors"@, "Authors"@, Some("comma-separated"@), false),
            ],
            AppletKind::WikiPrep => seq![
                fv("interests"@, "Interests"@, Some("comma-separated"@), false),
            ],
            AppletKind::Birthday => seq![fv("birthday"@, "Birthday"@, Some("YYYY-MM-DD"@), false)],
            AppletKind::Discord => seq![
                fv("discord_user_id"@, "User ID"@, Some("numeric snowflake ID"@), false),
                fv(
                    "default_message"@,
                    "Default Message"@,
                    Some("sent when you press [c] — default: Thinking of you!"@),
                    false,
                ),
            ],
        }
    }

    /// Whether profile `m` unlocks the applet.
    pub open spec fn unlocked_by(self, m: Map<Seq<char>, Seq<char>>) -> bool {
        match self {
            AppletKind::JobFeed => trim(value_or_empty(m, "desired_role"@)).len() > 0,
            AppletKind::BookRecs => csv_items(value_or_empty(m, "genres"@)).len() > 0 || csv_items(
                value_or_empty(m, "authors"@),
            ).len() > 0,
            AppletKind::WikiPrep => csv_items(value_or_empty(m, "interests"@)).len() > 0,
            AppletKind::Birthday => {
                let t = trim(value_or_empty(m, "birthday"@));
                t.len() > 0 && ymd_parse(t) is Some
            },
            AppletKind::Discord => trim(value_or_empty(m, "discord_user_id"@)).len() > 0,
        }
    }

    /// The key the applet's profile is stored under.
    pub fn key(&self) -> (res: &'static str)
        ensures
            res@ == self.key_spec(),
    {
        match self {
            AppletKind::JobFeed => "job_feed",
            AppletKind::BookRecs => "book_recs",
            AppletKind::WikiPrep => "wiki_prep",
            AppletKind::Birthday => "birthday",
            AppletKind::Discord => "discord",
        }
    }

    /// The applet's display name.
    pub fn label(&self) -> (res: &'static str)
        ensures
            res@ == self.label_spec(),
    {
        match self {
            AppletKind::JobFeed => "Job Feed",
            AppletKind::BookRecs => "Book Recs",
            AppletKind::WikiPrep => "Conversation Prep",
            AppletKind::Birthday => "Birthday Tracker",
            AppletKind::Discord => "Discord DM",
        }
    }

    /// The applet's display name (the same as its label).
    pub fn name(&self) -> (res: &'static str)
        ensures
            res@ == self.label_spec(),
    {
        self.label()
    }

    /// The fields the applet asks for.
    pub fn fields(&self) -> (res: Vec<FieldDef>)
        ensures
            field_views(res@) == self.fields_spec(),
    {
        let v = match self {
            AppletKind::JobFeed => vec![
                FieldDef::required("desired_role", "Desired Role"),
                FieldDef::optional("skills", "Skills", Some("comma-separated")),
                FieldDef::optional("location", "Location", None),
                FieldDef::optional("remote_preference", "Remote Pref", Some("remote/hybrid/onsite")),
                FieldDef::optional("experience_level", "Level", Some("junior/mid/senior")),
            ],
            AppletKind::BookRecs => vec![
                FieldDef::optional("genres", "Genres", Some("comma-separated")),
                FieldDef::optional("authors", "Authors", Some("comma-separated")),
            ],
            AppletKind::WikiPrep => vec![
                FieldDef::optional("interests", "Interests", Some("comma-separated")),
            ],
            AppletKind::Birthday => vec![FieldDef::optional("birthday", "Birthday", Some("YYYY-MM-DD"))],
            AppletKind::Discord => vec![
                FieldDef::optional("discord_user_id", "User ID", Some("numeric snowflake ID")),
                FieldDef::optional(
                    "default_message",
                    "Default Message",
                    Some("sent when you press [c] — default: Thinking of you!"),
                ),
            ],
        };
        assert(field_views(v@) =~= self.fields_spec());
        v
    }

    /// Whether `profile` unlocks the applet.
    pub fn is_unlocked(&self, profile: &Profile) -> (res: bool)
        ensures
            res == self.unlocked_by(profile@),
    {
        match self {
            AppletKind::JobFeed => {
                let r = profile.get_or_empty("desired_role");
                !trimmed(r.as_str()).as_str().is_empty()
            },
            AppletKind::BookRecs => {
                let g = profile.get_or_empty("genres");
                let a = profile.get_or_empty("authors");
                parse_csv(g.as_str()).len() > 0 || parse_csv(a.as_str()).len() > 0
            },
            AppletKind::WikiPrep => {
                let i = profile.get_or_empty("interests");
                parse_csv(i.as_str()).len() > 0
            },
            AppletKind::Birthday => {
                let b = profile.get_or_empty("birthday");
                let t = trimmed(b.as_str());
                !t.as_str().is_empty() && parse_ymd(t.as_str()).is_some()
            },
            AppletKind::Discord => {
                let u = profile.get_or_empty("discord_user_id");
                !trimmed(u.as_str()).as_str().is_empty()
            },
        }
    }

    /// The applet stored under `key`, if any.
    pub fn from_key(key: &str) -> (res: Option<AppletKind>)
        ensures
            match res {
                Some(a) => a.key_spec() == key@,
                None => forall|a: AppletKind| a.key_spec() != key@,
            },
    {
        if str_eq(key, "job_feed") {
            Some(AppletKind::JobFeed)
        } else if str_eq(key, "book_recs") {
            Some(AppletKind::BookRecs)
        } else if str_eq(key, "wiki_prep") {
            Some(AppletKind::WikiPrep)
        } else if str_eq(key, "birthday") {
            Some(AppletKind::Birthday)
        } else if str_eq(key, "discord") {
            Some(AppletKind::Discord)
        } else {
            proof {
                assert forall|a: AppletKind| a.key_spec() != key@ by {
                    match a {
                        AppletKind::JobFeed => {},
                        AppletKind::BookRecs => {},
                        AppletKind::WikiPrep => {},
                        AppletKind::Birthday => {},
                        AppletKind::Discord => {},
                    }
                }
            }
            None
        }
    }
}

/// The applets of the application, in the order their fields are edited.
pub open spec fn standard_applets() -> Seq<AppletKind> {
    seq![
        AppletKind::JobFeed,
        AppletKind::BookRecs,
        AppletKind::WikiPrep,
        AppletKind::Birthday,
        AppletKind::Discord,
    ]
}

/// The applets of `kinds` that friend `f`'s profiles unlock, in order.
pub open spec fn unlocked_in(kinds: Seq<AppletKind>, f: FriendView) -> Seq<AppletKind>
    decreases kinds.len(),
{
    if kinds.len() == 0 {
        Seq::empty()
    } else {
        let r = unlocked_in(kinds.drop_last(), f);
        let a = kinds.last();
        if a.unlocked_by(profile_of(f, a.key_spec())) {
            r.push(a)
        } else {
            r
        }
    }
}

/// The applets known to the application.
#[derive(Debug, Clone)]
pub struct AppletRegistry {
    applets: Vec<AppletKind>,
}

impl AppletRegistry {
    pub closed spec fn kinds(&self) -> Seq<AppletKind> {
        self.applets@
    }

    /// All applets, in order.
    pub fn all(&self) -> (res: &Vec<AppletKind>)
        ensures
            res@ == self.kinds(),
    {
        &self.applets
    }

    /// The applet stored under `key`, if the registry has it.
    pub fn by_key(&self, key: &str) -> (res: Option<AppletKind>)
        ensures
            match res {
                Some(a) => self.kinds().contains(a) && a.key_spec() == key@,
                None => forall|i: int|
                    0 <= i < self.kinds().len() ==> #[trigger] self.kinds()[i].key_spec() != key@,
            },
    {
        let n = self.applets.len();
        let mut i: usize = 0;
        while i < n
            invariant
                n == self.applets.len(),
                i <= n,
                forall|j: int| 0 <= j < i ==> #[trigger] self.applets@[j].key_spec() != key@,
            decreases n - i,
        {
            let a = self.applets[i];
            if str_eq(a.key(), key) {
                assert(self.applets@[i as int] == a);
                return Some(a);
            }
            i = i + 1;
        }
        None
    }

    /// The applets that friend `friend`'s profiles unlock, in order.
    pub fn available_for(&self, friend: &Friend) -> (res: Vec<AppletKind>)
        ensures
            res@ == unlocked_in(self.kinds(), friend@),
    {
        let n = self.applets.len();
        let mut out: Vec<AppletKind> = Vec::new();
        let mut i: usize = 0;
        while i < n
            invariant
                n == self.applets.len(),
                i <= n,
                out@ == unlocked_in(self.applets@.take(i as int), friend@),
            decreases n - i,
        {
            let a = self.applets[i];
            assert(self.applets@.take(i + 1).drop_last() =~= self.applets@.take(i as int));
            let p = friend.profile_for(a.key());
            if a.is_unlocked(&p) {
                out.push(a);
            }
            i = i + 1;
        }
        assert(self.applets@.take(n as int) =~= self.applets@);
        out
    }
}

/// The registry of all applets of the application.
pub fn build_registry() -> (res: AppletRegistry)
    ensures
        res.kinds() == standard_applets(),
{
    let r = AppletRegistry {
        applets: vec![
            AppletKind::JobFeed,
            AppletKind::BookRecs,
            AppletKind::WikiPrep,
            AppletKind::Birthday,
            AppletKind::Discord,
        ],
    };
    assert(r.applets@ =~= standard_applets());
    r
}

/// The applets that a friend's own job hunt, reading profile and interests
/// unlock, in this order: the job feed for a non-empty desired role, book
/// recommendations for a non-empty genre or author list, conversation prep
/// for a non-empty interest list.
pub open spec fn typed_applets(f: FriendView) -> Seq<AppletKind> {
    (match f.job_hunt {
        Some(j) => if j.desired_role.len() > 0 {
            seq![AppletKind::JobFeed]
        } else {
            Seq::empty()
        },
        None => Seq::empty(),
    }) + (match f.book_profile {
        Some(b) => if b.genres.len() > 0 || b.authors.len() > 0 {
            seq![AppletKind::BookRecs]
        } else {
            Seq::empty()
        },
        None => Seq::empty(),
    }) + (if f.interests.len() > 0 {
        seq![AppletKind::WikiPrep]
    } else {
        Seq::empty()
    })
}

/// The applets that `friend`'s job hunt, reading profile and interests unlock.
pub fn available_applets(friend: &Friend) -> (res: Vec<AppletKind>)
    ensures
        res@ == typed_applets(friend@),
{
    let mut applets: Vec<AppletKind> = Vec::new();
    match &friend.job_hunt {
        Some(j) => {
            if !j.desired_role.as_str().is_empty() {
                applets.push(AppletKind::JobFeed);
            }
        },
        None => {},
    }
    match &friend.book_profile {
        Some(b) => {
            if b.genres.len() > 0 || b.authors.len() > 0 {
                applets.push(AppletKind::BookRecs);
            }
        },
        None => {},
    }
    if friend.interests.len() > 0 {
        applets.push(AppletKind::WikiPrep);
    }
    assert(applets@ =~= typed_applets(friend@));
    applets
}

/// A friend with no profiles unlocks no applet.
pub proof fn lemma_no_profiles_no_applets(kinds: Seq<AppletKind>, f: FriendView)
    requires
        forall|k: Seq<char>| (#[trigger] profile_of(f, k)).dom().is_empty(),
    ensures
        unlocked_in(kinds, f) == Seq::<AppletKind>::empty(),
    decreases kinds.len(),
{
    if kinds.len() > 0 {
        lemma_no_profiles_no_applets(kinds.drop_last(), f);
        let a = kinds.last();
        let m = profile_of(f, a.key_spec());
        assert(m =~= Map::<Seq<char>, Seq<char>>::empty());
        let e = Seq::<char>::empty();
        assert(crate::text::trim_start(e) == e);
        assert(crate::text::trim_end(e) == e);
        assert(crate::text::split_on(e, ',') == seq![e]);
        assert(seq![e].drop_last() =~= Seq::<Seq<char>>::empty());
        assert(crate::text::keep_trimmed(seq![e].drop_last()) == Seq::<Seq<char>>::empty());
        assert(csv_items(e).len() == 0);
        assert(!a.unlocked_by(m));
    }
}

} // verus!
