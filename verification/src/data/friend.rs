//! A friend, with the profiles that unlock applets.
use vstd::prelude::*;
use crate::data::profile::{Profile, value_or_empty};
use crate::text::{csv_items, join_with, list_sep, views, str_eq, join_strings, parse_csv};

verus! {

/// What a friend looking for a job is after.
#[derive(Debug, Clone, Default)]
pub struct JobHuntProfile {
    pub desired_role: String,
    pub skills: Vec<String>,
    pub location: Option<String>,
    pub remote_preference: Option<String>,
    pub experience_level: Option<String>,
}

/// What a friend likes to read.
#[derive(Debug, Clone, Default)]
pub struct BookProfile {
    pub genres: Vec<String>,
    pub authors: Vec<String>,
}

/// A friend. `interests`, `job_hunt` and `book_profile` hold the profiles of
/// the conversation prep, job feed and book recommendation applets; `extra`
/// holds the profiles of every other applet, by applet key (a later entry for
/// the same key overriding an earlier one).
#[derive(Debug, Clone)]
pub struct Friend {
    pub id: String,
    pub name: String,
    pub email: Option<String>,
    pub notes: Option<String>,
    pub interests: Vec<String>,
    pub job_hunt: Option<JobHuntProfile>,
    pub book_profile: Option<BookProfile>,
    pub extra: Vec<(String, Profile)>,
}

pub struct JobHuntView {
    pub desired_role: Seq<char>,
    pub skills: Seq<Seq<char>>,
    pub location: Option<Seq<char>>,
    pub remote_preference: Option<Seq<char>>,
    pub experience_level: Option<Seq<char>>,
}

pub struct BookView {
    pub genres: Seq<Seq<char>>,
    pub authors: Seq<Seq<char>>,
}

pub struct FriendView {
    pub id: Seq<char>,
    pub name: Seq<char>,
    pub email: Option<Seq<char>>,
    pub notes: Option<Seq<char>>,
    pub interests: Seq<Seq<char>>,
    pub job_hunt: Option<JobHuntView>,
    pub book_profile: Option<BookView>,
    pub extra: Map<Seq<char>, Map<Seq<char>, Seq<char>>>,
}

pub open spec fn opt_view(o: Option<String>) -> Option<Seq<char>> {
    match o {
        Some(s) => Some(s@),
        None => None,
    }
}

/// The map that a list of (applet key, profile) entries stands for, later
/// entries overriding earlier ones.
pub open spec fn sections_map(s: Seq<(String, Profile)>) -> Map<
    Seq<char>,
    Map<Seq<char>, Seq<char>>,
>
    decreases s.len(),
{
    if s.len() == 0 {
        Map::empty()
    } else {
        sections_map(s.drop_last()).insert(s.last().0@, s.last().1@)
    }
}

impl View for JobHuntProfile {
    type V = JobHuntView;

    open spec fn view(&self) -> JobHuntView {
        JobHuntView {
            desired_role: self.desired_role@,
            skills: views(self.skills@),
            location: opt_view(self.location),
            remote_preference: opt_view(self.remote_preference),
            experience_level: opt_view(self.experience_level),
        }
    }
}

impl View for BookProfile {
    type V = BookView;

    open spec fn view(&self) -> BookView {
        BookView { genres: views(self.genres@), authors: views(self.authors@) }
    }
}

impl View for Friend {
    type V = FriendView;

    open spec fn view(&self) -> FriendView {
        FriendView {
            id: self.id@,
            name: self.name@,
            email: opt_view(self.email),
            notes: opt_view(self.notes),
            interests: views(self.interests@),
            job_hunt: match self.job_hunt {
                Some(j) => Some(j@),
                None => None,
            },
            book_profile: match self.book_profile {
                Some(b) => Some(b@),
                None => None,
            },
            extra: sections_map(self.extra@),
        }
    }
}

pub open spec fn job_feed_key() -> Seq<char> {
    "job_feed"@
}

pub open spec fn book_recs_key() -> Seq<char> {
    "book_recs"@
}

pub open spec fn wiki_prep_key() -> Seq<char> {
    "wiki_prep"@
}

/// `m` with `k` set to `v` when `v` is not empty.
pub open spec fn put_nonempty(m: Map<Seq<char>, Seq<char>>, k: Seq<char>, v: Seq<char>) -> Map<
    Seq<char>,
    Seq<char>,
> {
    if v.len() > 0 {
        m.insert(k, v)
    } else {
        m
    }
}

pub open spec fn put_opt(m: Map<Seq<char>, Seq<char>>, k: Seq<char>, v: Option<Seq<char>>) -> Map<
    Seq<char>,
    Seq<char>,
> {
    match v {
        Some(x) => put_nonempty(m, k, x),
        None => m,
    }
}

/// The job feed profile shown for a job hunt.
pub open spec fn job_map(j: JobHuntView) -> Map<Seq<char>, Seq<char>> {
    put_opt(
        put_opt(
            put_opt(
                put_nonempty(
                    put_nonempty(Map::empty(), "desired_role"@, j.desired_role),
                    "skills"@,
                    join_with(j.skills, list_sep()),
                ),
                "location"@,
                j.location,
            ),
            "remote_preference"@,
            j.remote_preference,
        ),
        "experience_level"@,
        j.experience_level,
    )
}

/// The book recommendation profile shown for a reading profile.
pub open spec fn book_map(b: BookView) -> Map<Seq<char>, Seq<char>> {
    put_nonempty(
        put_nonempty(Map::empty(), "genres"@, join_with(b.genres, list_sep())),
        "authors"@,
        join_with(b.authors, list_sep()),
    )
}

/// The conversation prep profile shown for a list of interests.
pub open spec fn interests_map(i: Seq<Seq<char>>) -> Map<Seq<char>, Seq<char>> {
    put_nonempty(Map::empty(), "interests"@, join_with(i, list_sep()))
}

/// The profile of applet `k` for friend `f`.
pub open spec fn profile_of(f: FriendView, k: Seq<char>) -> Map<Seq<char>, Seq<char>> {
    if k == job_feed_key() {
        match f.job_hunt {
            Some(j) => job_map(j),
            None => Map::empty(),
        }
    } else if k == book_recs_key() {
        match f.book_profile {
            Some(b) => book_map(b),
            None => Map::empty(),
        }
    } else if k == wiki_prep_key() {
        interests_map(f.interests)
    } else if f.extra.contains_key(k) {
        f.extra[k]
    } else {
        Map::empty()
    }
}

/// Friend `f` with the profile of applet `k` replaced by `m`.
pub open spec fn with_profile(f: FriendView, k: Seq<char>, m: Map<Seq<char>, Seq<char>>) -> FriendView {
    if k == job_feed_key() {
        FriendView {
            job_hunt: if m.dom().is_empty() {
                None
            } else {
                Some(
                    JobHuntView {
                        desired_role: value_or_empty(m, "desired_role"@),
                        skills: csv_items(value_or_empty(m, "skills"@)),
                        location: m.index_opt("location"@),
                        remote_preference: m.index_opt("remote_preference"@),
                        experience_level: m.index_opt("experience_level"@),
                    },
                )
            },
            ..f
        }
    } else if k == book_recs_key() {
        FriendView {
            book_profile: if m.dom().is_empty() {
                None
            } else {
                Some(
                    BookView {
                        genres: csv_items(value_or_empty(m, "genres"@)),
                        authors: csv_items(value_or_empty(m, "authors"@)),
                    },
                )
            },
            ..f
        }
    } else if k == wiki_prep_key() {
        FriendView { interests: csv_items(value_or_empty(m, "interests"@)), ..f }
    } else {
        FriendView {
            extra: if m.dom().is_empty() {
                f.extra.remove(k)
            } else {
                f.extra.insert(k, m)
            },
            ..f
        }
    }
}

/// A lower-case hexadecimal digit.
pub open spec fn is_lower_hex(c: char) -> bool {
    ('0' <= c <= '9') || ('a' <= c <= 'f')
}

/// A random (version 4) UUID written out: 36 characters, hyphens at 8, 13, 18
/// and 23, lower-case hex digits elsewhere, `4` at 14 (the version) and one of
/// `8`, `9`, `a`, `b` at 19 (the variant).
pub open spec fn is_uuid_v4_text(s: Seq<char>) -> bool {
    &&& s.len() == 36
    &&& forall|i: int|
        0 <= i < 36 ==> if i == 8 || i == 13 || i == 18 || i == 23 {
            #[trigger] s[i] == '-'
        } else {
            is_lower_hex(s[i])
        }
    &&& s[14] == '4'
    &&& (s[19] == '8' || s[19] == '9' || s[19] == 'a' || s[19] == 'b')
}

/// A fresh random id (`uuid::Uuid::new_v4().to_string()`): claimed to be a
/// version 4 UUID in hyphenated lower-case form; which one is left open
/// (it is random).
#[verifier::external_body]
fn new_id() -> (res: String)
    ensures
        is_uuid_v4_text(res@),
{
    uuid::Uuid::new_v4().to_string()
}

fn put_nonempty_exec(p: &mut Profile, key: &str, value: String)
    ensures
        final(p)@ == put_nonempty(old(p)@, key@, value@),
{
    if !value.as_str().is_empty() {
        p.insert(key.to_string(), value);
    }
}

fn put_opt_exec(p: &mut Profile, key: &str, value: &Option<String>)
    ensures
        final(p)@ == put_opt(old(p)@, key@, opt_view(*value)),
{
    match value {
        Some(v) => put_nonempty_exec(p, key, v.clone()),
        None => {},
    }
}

impl Friend {
    /// A friend with a fresh id, the given name and nothing else.
    pub fn new(name: String) -> (res: Friend)
        ensures
            is_uuid_v4_text(res@.id),
            res@.name == name@,
            res@.email is None,
            res@.notes is None,
            res@.interests.len() == 0,
            res@.job_hunt is None,
            res@.book_profile is None,
            res@.extra == Map::<Seq<char>, Map<Seq<char>, Seq<char>>>::empty(),
    {
        let f = Friend {
            id: new_id(),
            name,
            email: None,
            notes: None,
            interests: Vec::new(),
            job_hunt: None,
            book_profile: None,
            extra: Vec::new(),
        };
        assert(f@.extra =~= Map::empty());
        f
    }

    /// The profile of applet `key`.
    pub fn profile_for(&self, key: &str) -> (res: Profile)
        ensures
            res@ == profile_of(self@, key@),
    {
        if str_eq(key, "job_feed") {
            match &self.job_hunt {
                Some(j) => {
                    let mut p = Profile::new();
                    put_nonempty_exec(&mut p, "desired_role", j.desired_role.clone());
                    put_nonempty_exec(&mut p, "skills", join_strings(&j.skills, ", "));
                    put_opt_exec(&mut p, "location", &j.location);
                    put_opt_exec(&mut p, "remote_preference", &j.remote_preference);
                    put_opt_exec(&mut p, "experience_level", &j.experience_level);
                    assert(p@ == job_map(j@));
                    p
                },
                None => Profile::new(),
            }
        } else if str_eq(key, "book_recs") {
            match &self.book_profile {
                Some(b) => {
                    let mut p = Profile::new();
                    put_nonempty_exec(&mut p, "genres", join_strings(&b.genres, ", "));
                    put_nonempty_exec(&mut p, "authors", join_strings(&b.authors, ", "));
                    p
                },
                None => Profile::new(),
            }
        } else if str_eq(key, "wiki_prep") {
            let mut p = Profile::new();
            put_nonempty_exec(&mut p, "interests", join_strings(&self.interests, ", "));
            p
        } else {
            let n = self.extra.len();
            let mut found: Option<usize> = None;
            let mut i: usize = 0;
            while i < n
                invariant
                    n == self.extra.len(),
                    i <= n,
                    match found {
                        Some(j) => j < i && self.extra@[j as int].0@ == key@
                            && sections_map(self.extra@.take(i as int)).contains_key(key@)
                            && sections_map(self.extra@.take(i as int))[key@]
                            == self.extra@[j as int].1@,
                        None => !sections_map(self.extra@.take(i as int)).contains_key(key@),
                    },
                decreases n - i,
            {
                assert(self.extra@.take(i + 1).drop_last() =~= self.extra@.take(i as int));
                if str_eq(self.extra[i].0.as_str(), key) {
                    found = Some(i);
                }
                i = i + 1;
            }
            assert(self.extra@.take(n as int) =~= self.extra@);
            assert(key@ != job_feed_key() && key@ != book_recs_key() && key@ != wiki_prep_key());
            match found {
                Some(j) => self.extra[j].1.copy(),
                None => Profile::new(),
            }
        }
    }

    /// Whether applet `key` has a non-empty profile for this friend.
    pub fn has_profile(&self, key: &str) -> (res: bool)
        ensures
            res == !profile_of(self@, key@).dom().is_empty(),
    {
        !self.profile_for(key).is_empty()
    }

    /// Replaces the profile of applet `key` by `profile`.
    pub fn set_profile(&mut self, key: &str, profile: Profile)
        ensures
            final(self)@ == with_profile(old(self)@, key@, profile@),
    {
        if str_eq(key, "job_feed") {
            if profile.is_empty() {
                self.job_hunt = None;
            } else {
                let skills = profile.get_or_empty("skills");
                self.job_hunt = Some(
                    JobHuntProfile {
                        desired_role: profile.get_or_empty("desired_role"),
                        skills: parse_csv(skills.as_str()),
                        location: profile.get_owned("location"),
                        remote_preference: profile.get_owned("remote_preference"),
                        experience_level: profile.get_owned("experience_level"),
                    },
                );
            }
        } else if str_eq(key, "book_recs") {
            if profile.is_empty() {
                self.book_profile = None;
            } else {
                let genres = profile.get_or_empty("genres");
                let authors = profile.get_or_empty("authors");
                self.book_profile = Some(
                    BookProfile {
                        genres: parse_csv(genres.as_str()),
                        authors: parse_csv(authors.as_str()),
                    },
                );
            }
        } else if str_eq(key, "wiki_prep") {
            let interests = profile.get_or_empty("interests");
            self.interests = parse_csv(interests.as_str());
        } else {
            let n = self.extra.len();
            let mut kept: Vec<(String, Profile)> = Vec::new();
            let mut i: usize = 0;
            while i < n
                invariant
                    n == self.extra.len(),
                    self.extra == old(self).extra,
                    i <= n,
                    sections_map(kept@) == sections_map(self.extra@.take(i as int)).remove(key@),
                decreases n - i,
            {
                let ghost before = kept@;
                assert(self.extra@.take(i + 1).drop_last() =~= self.extra@.take(i as int));
                if !str_eq(self.extra[i].0.as_str(), key) {
                    let k = self.extra[i].0.clone();
                    let p = self.extra[i].1.copy();
                    kept.push((k, p));
                    assert(kept@.drop_last() =~= before);
                    assert(sections_map(kept@) =~= sections_map(self.extra@.take(i + 1)).remove(
                        key@,
                    ));
                } else {
                    assert(sections_map(kept@) =~= sections_map(self.extra@.take(i + 1)).remove(
                        key@,
                    ));
                }
                i = i + 1;
            }
            assert(self.extra@.take(n as int) =~= self.extra@);
            if !profile.is_empty() {
                let ghost before = kept@;
                kept.push((key.to_string(), profile));
                assert(kept@.drop_last() =~= before);
            }
            self.extra = kept;
            assert(final(self)@.extra =~= with_profile(old(self)@, key@, profile@).extra);
        }
    }
}

} // verus!
