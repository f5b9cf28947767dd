//! The add/edit form: one row per friend field and per applet profile field.
use vstd::prelude::*;
use crate::apps::{AppletKind, AppletRegistry, FieldView};
use crate::data::friend::{Friend, FriendView, opt_view, profile_of, with_profile};
use crate::data::profile::{Profile, value_or_empty};
use crate::text::{chars_of, push_str, str_eq, string_of, trim, trimmed};

verus! {

/// One editable row of the form. `key` is `name`, `email`, `notes`, or
/// `<applet key>.<field key>` for an applet profile field.
#[derive(Debug, Clone)]
pub struct EditRow {
    pub key: String,
    pub label: String,
    pub hint: Option<String>,
    pub value: String,
}

pub struct RowView {
    pub key: Seq<char>,
    pub label: Seq<char>,
    pub hint: Option<Seq<char>>,
    pub value: Seq<char>,
}

impl View for EditRow {
    type V = RowView;

    open spec fn view(&self) -> RowView {
        RowView { key: self.key@, label: self.label@, hint: opt_view(self.hint), value: self.value@ }
    }
}

/// The form's rows and the row the cursor is on.
#[derive(Debug, Clone)]
pub struct EditState {
    pub rows: Vec<EditRow>,
    pub cursor: usize,
}

pub open spec fn row_views(rows: Seq<EditRow>) -> Seq<RowView> {
    rows.map_values(|r: EditRow| r@)
}

pub open spec fn rv(key: Seq<char>, label: Seq<char>, hint: Option<Seq<char>>, value: Seq<char>) -> RowView {
    RowView { key, label, hint, value }
}

pub open spec fn or_empty(o: Option<Seq<char>>) -> Seq<char> {
    match o {
        Some(s) => s,
        None => Seq::empty(),
    }
}

pub open spec fn nonempty_opt(s: Seq<char>) -> Option<Seq<char>> {
    if s.len() > 0 {
        Some(s)
    } else {
        None
    }
}

/// The rows of the friend's own fields.
pub open spec fn core_rows(name: Seq<char>, email: Seq<char>, notes: Seq<char>) -> Seq<RowView> {
    seq![
        rv("name"@, "Name"@, None, name),
        rv("email"@, "Email"@, None, email),
        rv("notes"@, "Notes"@, None, notes),
    ]
}

/// The row of profile field `fd` of applet `a`, holding the value in `p`.
pub open spec fn field_row(a: AppletKind, fd: FieldView, p: Map<Seq<char>, Seq<char>>) -> RowView {
    rv(a.key_spec() + "."@ + fd.key, a.label_spec() + ": "@ + fd.label, fd.hint, value_or_empty(p, fd.key))
}

pub open spec fn field_rows(a: AppletKind, fields: Seq<FieldView>, p: Map<Seq<char>, Seq<char>>) -> Seq<RowView>
    decreases fields.len(),
{
    if fields.len() == 0 {
        Seq::empty()
    } else {
        field_rows(a, fields.drop_last(), p).push(field_row(a, fields.last(), p))
    }
}

/// The rows of the applets `kinds`, each showing the profile `profiles` gives for its key.
pub open spec fn registry_rows(
    kinds: Seq<AppletKind>,
    profiles: spec_fn(Seq<char>) -> Map<Seq<char>, Seq<char>>,
) -> Seq<RowView>
    decreases kinds.len(),
{
    if kinds.len() == 0 {
        Seq::empty()
    } else {
        let a = kinds.last();
        registry_rows(kinds.drop_last(), profiles) + field_rows(a, a.fields_spec(), profiles(a.key_spec()))
    }
}

/// The form filled in from friend `f`.
pub open spec fn friend_rows(kinds: Seq<AppletKind>, f: FriendView) -> Seq<RowView> {
    core_rows(f.name, or_empty(f.email), or_empty(f.notes)) + registry_rows(
        kinds,
        |k: Seq<char>| profile_of(f, k),
    )
}

/// The empty form.
pub open spec fn blank_rows(kinds: Seq<AppletKind>) -> Seq<RowView> {
    core_rows(Seq::empty(), Seq::empty(), Seq::empty()) + registry_rows(
        kinds,
        |k: Seq<char>| Map::<Seq<char>, Seq<char>>::empty(),
    )
}

/// Index of the first row whose key is `k`, or -1.
pub open spec fn first_index(rows: Seq<RowView>, k: Seq<char>) -> int
    decreases rows.len(),
{
    if rows.len() == 0 {
        -1
    } else {
        let r = first_index(rows.drop_last(), k);
        if r >= 0 {
            r
        } else if rows.last().key == k {
            rows.len() - 1
        } else {
            -1
        }
    }
}

/// The value of the first row whose key is `k`, or the empty string.
pub open spec fn row_value(rows: Seq<RowView>, k: Seq<char>) -> Seq<char> {
    let i = first_index(rows, k);
    if i >= 0 {
        rows[i].value
    } else {
        Seq::empty()
    }
}

/// Index of the first `.` in `k`, or -1.
pub open spec fn dot_index(k: Seq<char>) -> int
    decreases k.len(),
{
    if k.len() == 0 {
        -1
    } else {
        let r = dot_index(k.drop_last());
        if r >= 0 {
            r
        } else if k.last() == '.' {
            k.len() - 1
        } else {
            -1
        }
    }
}

/// The profile that the rows give applet `a`: for each row keyed
/// `<a>.<field>`, the trimmed value under `field` when it is not empty (a
/// later row overriding an earlier one).
pub open spec fn bucket(rows: Seq<RowView>, a: Seq<char>) -> Map<Seq<char>, Seq<char>>
    decreases rows.len(),
{
    if rows.len() == 0 {
        Map::empty()
    } else {
        let m = bucket(rows.drop_last(), a);
        let r = rows.last();
        let i = dot_index(r.key);
        let v = trim(r.value);
        if i >= 0 && r.key.take(i) == a && v.len() > 0 {
            m.insert(r.key.skip(i + 1), v)
        } else {
            m
        }
    }
}

/// The applet keys that the rows mention, in order of first appearance.
pub open spec fn prefixes(rows: Seq<RowView>) -> Seq<Seq<char>>
    decreases rows.len(),
{
    if rows.len() == 0 {
        Seq::empty()
    } else {
        let p = prefixes(rows.drop_last());
        let k = rows.last().key;
        let i = dot_index(k);
        if i >= 0 && !p.contains(k.take(i)) {
            p.push(k.take(i))
        } else {
            p
        }
    }
}

/// Friend `f` with the profile of every applet in `keys` replaced by what the rows give it.
pub open spec fn apply_profiles(f: FriendView, keys: Seq<Seq<char>>, rows: Seq<RowView>) -> FriendView
    decreases keys.len(),
{
    if keys.len() == 0 {
        f
    } else {
        with_profile(apply_profiles(f, keys.drop_last(), rows), keys.last(), bucket(rows, keys.last()))
    }
}

/// Friend `f` after saving the form `rows` into it.
pub open spec fn applied(rows: Seq<RowView>, f: FriendView) -> FriendView {
    let f1 = FriendView {
        name: trim(row_value(rows, "name"@)),
        email: nonempty_opt(trim(row_value(rows, "email"@))),
        notes: nonempty_opt(trim(row_value(rows, "notes"@))),
        ..f
    };
    apply_profiles(f1, prefixes(rows), rows)
}

pub(crate) proof fn lemma_first_index_prefix(rows: Seq<RowView>, k: Seq<char>, i: int)
    requires
        0 <= i <= rows.len(),
        first_index(rows.take(i), k) >= 0,
    ensures
        first_index(rows, k) == first_index(rows.take(i), k),
    decreases rows.len() - i,
{
    if i < rows.len() {
        assert(rows.take(i + 1).drop_last() =~= rows.take(i));
        lemma_first_index_prefix(rows, k, i + 1);
    } else {
        assert(rows.take(i) =~= rows);
    }
}

pub(crate) proof fn lemma_first_index_absent(rows: Seq<RowView>, k: Seq<char>)
    requires
        forall|j: int| 0 <= j < rows.len() ==> rows[j].key != k,
    ensures
        first_index(rows, k) == -1,
    decreases rows.len(),
{
    if rows.len() > 0 {
        lemma_first_index_absent(rows.drop_last(), k);
    }
}

pub(crate) proof fn lemma_first_index_bounds(rows: Seq<RowView>, k: Seq<char>)
    ensures
        -1 <= first_index(rows, k) < rows.len(),
        first_index(rows, k) >= 0 ==> rows[first_index(rows, k)].key == k,
    decreases rows.len(),
{
    if rows.len() > 0 {
        lemma_first_index_bounds(rows.drop_last(), k);
    }
}

/// The index of the first row keyed `key`, if any.
fn find_row(rows: &Vec<EditRow>, key: &str) -> (res: Option<usize>)
    ensures
        match res {
            Some(i) => i < rows.len() && first_index(row_views(rows@), key@) == i,
            None => first_index(row_views(rows@), key@) == -1,
        },
{
    let n = rows.len();
    let mut i: usize = 0;
    while i < n
        invariant
            n == rows.len(),
            i <= n,
            forall|j: int| 0 <= j < i ==> #[trigger] rows@[j].key@ != key@,
        decreases n - i,
    {
        if str_eq(rows[i].key.as_str(), key) {
            proof {
                let rs = row_views(rows@);
                assert forall|j: int| 0 <= j < i implies #[trigger] rs.take(i as int)[j].key != key@ by {
                    assert(rs.take(i as int)[j] == rows@[j]@);
                }
                lemma_first_index_absent(rs.take(i as int), key@);
                assert(rs.take(i + 1).drop_last() =~= rs.take(i as int));
                lemma_first_index_prefix(rs, key@, i + 1);
            }
            return Some(i);
        }
        i = i + 1;
    }
    proof {
        let rs = row_views(rows@);
        assert forall|j: int| 0 <= j < rs.len() implies #[trigger] rs[j].key != key@ by {
            assert(rs[j] == rows@[j]@);
        }
        lemma_first_index_absent(rs, key@);
    }
    None
}

/// Appends the rows of applet `a`'s fields, showing the values in `profile`.
fn push_applet_rows(rows: &mut Vec<EditRow>, a: AppletKind, profile: &Profile)
    ensures
        row_views(final(rows)@) == row_views(old(rows)@) + field_rows(a, a.fields_spec(), profile@),
{
    let fields = a.fields();
    let n = fields.len();
    let mut j: usize = 0;
    assert(a.fields_spec().take(0) =~= Seq::<FieldView>::empty());
    assert(row_views(rows@) =~= row_views(old(rows)@) + Seq::<RowView>::empty());
    while j < n
        invariant
            n == fields.len(),
            j <= n,
            crate::apps::field_views(fields@) == a.fields_spec(),
            rows@.len() == old(rows)@.len() + j,
            row_views(rows@) == row_views(old(rows)@) + field_rows(
                a,
                a.fields_spec().take(j as int),
                profile@,
            ),
        decreases n - j,
    {
        let fd = &fields[j];
        let mut key = a.key().to_string();
        push_str(&mut key, ".");
        push_str(&mut key, fd.key.as_str());
        let mut label = a.name().to_string();
        push_str(&mut label, ": ");
        push_str(&mut label, fd.label.as_str());
        let value = profile.get_or_empty(fd.key.as_str());
        let hint = fd.hint.clone();
        let ghost before = rows@;
        rows.push(EditRow { key, label, hint, value });
        proof {
            let fs = a.fields_spec();
            assert(fs[j as int] == fields@[j as int]@);
            assert(fs.take(j + 1).drop_last() =~= fs.take(j as int));
            assert(row_views(rows@) =~= row_views(before).push(rows@.last()@));
            assert(row_views(rows@) =~= row_views(old(rows)@) + field_rows(
                a,
                fs.take(j + 1),
                profile@,
            ));
        }
        j = j + 1;
    }
    assert(a.fields_spec().take(n as int) =~= a.fields_spec());
}

fn core_row(key: &str, label: &str, value: String) -> (res: EditRow)
    ensures
        res@ == rv(key@, label@, None, value@),
{
    EditRow { key: key.to_string(), label: label.to_string(), hint: None, value }
}

fn opt_or_empty(o: &Option<String>) -> (res: String)
    ensures
        res@ == or_empty(opt_view(*o)),
{
    match o {
        Some(s) => s.clone(),
        None => String::new(),
    }
}


pub(crate) proof fn lemma_dot_index_prefix(k: Seq<char>, i: int)
    requires
        0 <= i <= k.len(),
        dot_index(k.take(i)) >= 0,
    ensures
        dot_index(k) == dot_index(k.take(i)),
    decreases k.len() - i,
{
    if i < k.len() {
        assert(k.take(i + 1).drop_last() =~= k.take(i));
        lemma_dot_index_prefix(k, i + 1);
    } else {
        assert(k.take(i) =~= k);
    }
}

pub(crate) proof fn lemma_dot_index_absent(k: Seq<char>)
    requires
        forall|j: int| 0 <= j < k.len() ==> k[j] != '.',
    ensures
        dot_index(k) == -1,
    decreases k.len(),
{
    if k.len() > 0 {
        lemma_dot_index_absent(k.drop_last());
    }
}

pub(crate) proof fn lemma_prefixes_distinct(rows: Seq<RowView>)
    ensures
        prefixes(rows).no_duplicates(),
    decreases rows.len(),
{
    if rows.len() > 0 {
        lemma_prefixes_distinct(rows.drop_last());
    }
}

/// The index of the first `.` in `k`, if any.
fn first_dot(k: &Vec<char>) -> (res: Option<usize>)
    ensures
        match res {
            Some(d) => d < k.len() && dot_index(k@) == d,
            None => dot_index(k@) == -1,
        },
{
    let n = k.len();
    let mut i: usize = 0;
    while i < n
        invariant
            n == k.len(),
            i <= n,
            forall|j: int| 0 <= j < i ==> k@[j] != '.',
        decreases n - i,
    {
        if k[i] == '.' {
            proof {
                assert forall|j: int| 0 <= j < i implies #[trigger] k@.take(i as int)[j] != '.' by {}
                lemma_dot_index_absent(k@.take(i as int));
                assert(k@.take(i + 1).drop_last() =~= k@.take(i as int));
                lemma_dot_index_prefix(k@, i + 1);
            }
            return Some(i);
        }
        i = i + 1;
    }
    proof {
        lemma_dot_index_absent(k@);
    }
    None
}

/// The index of `a` in `keys`, if present.
fn find_key(keys: &Vec<String>, a: &String) -> (res: Option<usize>)
    ensures
        match res {
            Some(j) => j < keys.len() && keys@[j as int]@ == a@,
            None => !crate::text::views(keys@).contains(a@),
        },
{
    let n = keys.len();
    let mut i: usize = 0;
    while i < n
        invariant
            n == keys.len(),
            i <= n,
            forall|j: int| 0 <= j < i ==> keys@[j]@ != a@,
        decreases n - i,
    {
        if keys[i] == *a {
            return Some(i);
        }
        i = i + 1;
    }
    proof {
        let vs = crate::text::views(keys@);
        if vs.contains(a@) {
            let j = choose|j: int| 0 <= j < vs.len() && vs[j] == a@;
            assert(keys@[j]@ == a@);
        }
    }
    None
}

pub(crate) proof fn lemma_bucket_absent(rows: Seq<RowView>, a: Seq<char>)
    requires
        !prefixes(rows).contains(a),
    ensures
        bucket(rows, a) == Map::<Seq<char>, Seq<char>>::empty(),
    decreases rows.len(),
{
    if rows.len() > 0 {
        let p = prefixes(rows.drop_last());
        let k = rows.last().key;
        let i = dot_index(k);
        if p.contains(a) {
            let j = choose|j: int| 0 <= j < p.len() && p[j] == a;
            if i >= 0 && !p.contains(k.take(i)) {
                assert(prefixes(rows)[j] == a);
            } else {
                assert(prefixes(rows)[j] == a);
            }
        }
        lemma_bucket_absent(rows.drop_last(), a);
        if i >= 0 && k.take(i) == a {
            if !p.contains(k.take(i)) {
                assert(prefixes(rows).last() == a);
            }
        }
    }
}

impl EditState {
    /// The form filled in from `friend`, with a row for every profile field
    /// of every applet of `registry`; the cursor on the first row.
    pub fn from_friend_and_registry(friend: &Friend, registry: &AppletRegistry) -> (res: EditState)
        ensures
            row_views(res.rows@) == friend_rows(registry.kinds(), friend@),
            res.cursor == 0,
    {
        let mut rows: Vec<EditRow> = Vec::new();
        rows.push(core_row("name", "Name", friend.name.clone()));
        rows.push(core_row("email", "Email", opt_or_empty(&friend.email)));
        rows.push(core_row("notes", "Notes", opt_or_empty(&friend.notes)));
        let ghost core = core_rows(friend@.name, or_empty(friend@.email), or_empty(friend@.notes));
        let ghost pf = |k: Seq<char>| profile_of(friend@, k);
        assert(row_views(rows@) =~= core);
        let applets = registry.all();
        let n = applets.len();
        let mut i: usize = 0;
        assert(applets@.take(0) =~= Seq::<AppletKind>::empty());
        assert(row_views(rows@) =~= core + registry_rows(applets@.take(0), pf));
        while i < n
            invariant
                n == applets.len(),
                i <= n,
                applets@ == registry.kinds(),
                pf == (|k: Seq<char>| profile_of(friend@, k)),
                row_views(rows@) == core + registry_rows(applets@.take(i as int), pf),
            decreases n - i,
        {
            let a = applets[i];
            let profile = friend.profile_for(a.key());
            let ghost before = row_views(rows@);
            push_applet_rows(&mut rows, a, &profile);
            proof {
                assert(applets@.take(i + 1).drop_last() =~= applets@.take(i as int));
                assert(applets@.take(i + 1).last() == a);
                assert(row_views(rows@) =~= core + registry_rows(applets@.take(i + 1), pf));
            }
            i = i + 1;
        }
        assert(applets@.take(n as int) =~= applets@);
        EditState { rows, cursor: 0 }
    }

    /// The empty form for the applets of `registry`; the cursor on the first row.
    pub fn blank_for_registry(registry: &AppletRegistry) -> (res: EditState)
        ensures
            row_views(res.rows@) == blank_rows(registry.kinds()),
            res.cursor == 0,
    {
        let mut rows: Vec<EditRow> = Vec::new();
        rows.push(core_row("name", "Name", String::new()));
        rows.push(core_row("email", "Email", String::new()));
        rows.push(core_row("notes", "Notes", String::new()));
        let ghost core = core_rows(Seq::empty(), Seq::empty(), Seq::empty());
        let ghost pf = |k: Seq<char>| Map::<Seq<char>, Seq<char>>::empty();
        let applets = registry.all();
        let n = applets.len();
        let mut i: usize = 0;
        assert(applets@.take(0) =~= Seq::<AppletKind>::empty());
        assert(row_views(rows@) =~= core + registry_rows(applets@.take(0), pf));
        let empty = Profile::new();
        while i < n
            invariant
                n == applets.len(),
                i <= n,
                applets@ == registry.kinds(),
                empty@ == Map::<Seq<char>, Seq<char>>::empty(),
                pf == (|k: Seq<char>| Map::<Seq<char>, Seq<char>>::empty()),
                row_views(rows@) == core + registry_rows(applets@.take(i as int), pf),
            decreases n - i,
        {
            let a = applets[i];
            push_applet_rows(&mut rows, a, &empty);
            proof {
                assert(applets@.take(i + 1).drop_last() =~= applets@.take(i as int));
                assert(row_views(rows@) =~= core + registry_rows(applets@.take(i + 1), pf));
            }
            i = i + 1;
        }
        assert(applets@.take(n as int) =~= applets@);
        EditState { rows, cursor: 0 }
    }

    /// The value of the first row keyed `key`, or `""` when there is none.
    pub fn get(&self, key: &str) -> (res: &str)
        ensures
            res@ == row_value(row_views(self.rows@), key@),
    {
        match find_row(&self.rows, key) {
            Some(i) => {
                assert(row_views(self.rows@)[i as int] == self.rows@[i as int]@);
                self.rows[i].value.as_str()
            },
            None => {
                proof {
                    reveal_strlit("");
                }
                ""
            },
        }
    }

    /// The value of the first row keyed `key`, to be changed in place.
    pub fn get_mut(&mut self, key: &str) -> (res: Option<&mut String>)
        ensures
            match res {
                Some(v) => {
                    let i = first_index(row_views(old(self).rows@), key@);
                    &&& 0 <= i < old(self).rows@.len()
                    &&& *v == old(self).rows@[i].value
                    &&& final(self).rows@ == old(self).rows@.update(
                        i,
                        EditRow { value: *final(v), ..old(self).rows@[i] },
                    )
                    &&& final(self).cursor == old(self).cursor
                },
                None => {
                    &&& first_index(row_views(old(self).rows@), key@) == -1
                    &&& *final(self) == *old(self)
                },
            },
    {
        match find_row(&self.rows, key) {
            Some(i) => {
                let row = &mut self.rows[i];
                Some(&mut row.value)
            },
            None => None,
        }
    }

    /// Saves the form into `friend`: the trimmed name; the trimmed email and
    /// notes, or none when blank; and for every applet that a row key names,
    /// the profile made of that applet's non-blank trimmed row values.
    /// Profiles of applets that no row names are left as they are.
    pub fn apply_to_friend(&self, friend: &mut Friend)
        ensures
            final(friend)@ == applied(row_views(self.rows@), old(friend)@),
    {
        let ghost rs = row_views(self.rows@);
        let name = trimmed(self.get("name"));
        let email = trimmed(self.get("email"));
        let notes = trimmed(self.get("notes"));
        friend.name = name;
        friend.email = if email.as_str().is_empty() {
            None
        } else {
            Some(email)
        };
        friend.notes = if notes.as_str().is_empty() {
            None
        } else {
            Some(notes)
        };
        let ghost f1 = friend@;
        assert(f1 == FriendView {
            name: trim(row_value(rs, "name"@)),
            email: nonempty_opt(trim(row_value(rs, "email"@))),
            notes: nonempty_opt(trim(row_value(rs, "notes"@))),
            ..old(friend)@
        });
        let mut keys: Vec<String> = Vec::new();
        let mut profiles: Vec<Profile> = Vec::new();
        let n = self.rows.len();
        let mut i: usize = 0;
        assert(rs.take(0) =~= Seq::<RowView>::empty());
        while i < n
            invariant
                n == self.rows.len(),
                rs == row_views(self.rows@),
                i <= n,
                keys.len() == profiles.len(),
                crate::text::views(keys@) == prefixes(rs.take(i as int)),
                forall|j: int|
                    0 <= j < keys.len() ==> #[trigger] profiles@[j]@ == bucket(
                        rs.take(i as int),
                        keys@[j]@,
                    ),
            decreases n - i,
        {
            let ghost prev = rs.take(i as int);
            assert(rs.take(i + 1).drop_last() =~= prev);
            assert(rs.take(i + 1).last() == self.rows@[i as int]@);
            let kc = chars_of(self.rows[i].key.as_str());
            match first_dot(&kc) {
                Some(d) => {
                    let a = string_of(&kc, 0, d);
                    let fk = string_of(&kc, d + 1, kc.len());
                    let v = trimmed(self.rows[i].value.as_str());
                    let ghost r = rs.take(i + 1).last();
                    assert(r.key == kc@);
                    assert(a@ == r.key.take(d as int));
                    assert(fk@ == r.key.skip(d + 1));
                    assert(v@ == trim(r.value));
                    proof {
                        lemma_prefixes_distinct(prev);
                    }
                    let ghost old_keys = keys@;
                    let ghost old_profiles = profiles@;
                    let idx = match find_key(&keys, &a) {
                        Some(j) => {
                            assert(crate::text::views(keys@)[j as int] == a@);
                            assert(prefixes(prev).contains(a@));
                            j
                        },
                        None => {
                            proof {
                                lemma_bucket_absent(prev, a@);
                            }
                            keys.push(a.clone());
                            profiles.push(Profile::new());
                            assert(crate::text::views(keys@) =~= crate::text::views(old_keys).push(
                                a@,
                            ));
                            keys.len() - 1
                        },
                    };
                    let ghost mid_profiles = profiles@;
                    assert(keys@[idx as int]@ == a@);
                    assert(mid_profiles[idx as int]@ == bucket(prev, a@));
                    if !v.as_str().is_empty() {
                        let mut p = profiles[idx].copy();
                        p.insert(fk, v);
                        profiles.set(idx, p);
                    }
                    assert(dot_index(r.key) == d);
                    assert(crate::text::views(keys@) =~= prefixes(rs.take(i + 1)));
                    proof {
                        lemma_prefixes_distinct(rs.take(i + 1));
                        let vs = crate::text::views(keys@);
                        assert forall|j: int| 0 <= j < keys.len() implies #[trigger] profiles@[j]@
                            == bucket(rs.take(i + 1), keys@[j]@) by {
                            assert(vs[j] == keys@[j]@);
                            assert(vs[idx as int] == keys@[idx as int]@);
                            if j != idx {
                                assert(keys@[j]@ != a@);
                                assert(profiles@[j] == mid_profiles[j]);
                                assert(mid_profiles[j]@ == bucket(prev, keys@[j]@));
                            }
                        }
                    }
                },
                None => {
                    assert(crate::text::views(keys@) =~= prefixes(rs.take(i + 1)));
                },
            }
            i = i + 1;
        }
        assert(rs.take(n as int) =~= rs);
        let m = keys.len();
        let mut j: usize = 0;
        let ghost ks = crate::text::views(keys@);
        assert(ks.take(0) =~= Seq::<Seq<char>>::empty());
        while j < m
            invariant
                m == keys.len(),
                m == profiles.len(),
                j <= m,
                ks == crate::text::views(keys@),
                ks == prefixes(rs),
                forall|q: int| 0 <= q < m ==> #[trigger] profiles@[q]@ == bucket(rs, keys@[q]@),
                friend@ == apply_profiles(f1, ks.take(j as int), rs),
            decreases m - j,
        {
            let p = profiles[j].copy();
            friend.set_profile(keys[j].as_str(), p);
            assert(ks.take(j + 1).drop_last() =~= ks.take(j as int));
            assert(ks[j as int] == keys@[j as int]@);
            j = j + 1;
        }
        assert(ks.take(m as int) =~= ks);
    }
}


/// `s` without its last character (`String::pop`).
pub open spec fn drop_last_char(s: Seq<char>) -> Seq<char> {
    if s.len() > 0 {
        s.drop_last()
    } else {
        s
    }
}

/// `s` without its last character, if it has one.
pub fn without_last_char(s: &str) -> (res: String)
    ensures
        res@ == drop_last_char(s@),
{
    let v = chars_of(s);
    if v.len() == 0 {
        String::new()
    } else {
        let r = string_of(&v, 0, v.len() - 1);
        assert(v@.subrange(0, v.len() - 1) =~= v@.drop_last());
        r
    }
}

pub struct EditView {
    pub rows: Seq<RowView>,
    pub cursor: int,
}

impl View for EditState {
    type V = EditView;

    open spec fn view(&self) -> EditView {
        EditView { rows: row_views(self.rows@), cursor: self.cursor as int }
    }
}

/// `rows` with the value of row `i` replaced by `v`.
pub open spec fn set_row_value(rows: Seq<RowView>, i: int, v: Seq<char>) -> Seq<RowView> {
    rows.update(i, RowView { value: v, ..rows[i] })
}

impl EditState {
    /// Moves the cursor to the next row, staying on the last one.
    pub fn cursor_down(&mut self)
        requires
            old(self).rows.len() > 0,
        ensures
            final(self)@ == (EditView {
                cursor: if old(self).cursor + 1 < old(self).rows.len() {
                    old(self).cursor + 1
                } else {
                    old(self).rows.len() - 1
                },
                ..old(self)@
            }),
    {
        let last = self.rows.len() - 1;
        self.cursor = if self.cursor < last {
            self.cursor + 1
        } else {
            last
        };
    }

    /// Moves the cursor to the previous row, staying on the first one.
    pub fn cursor_up(&mut self)
        ensures
            final(self)@ == (EditView {
                cursor: if old(self).cursor > 0 {
                    old(self).cursor - 1
                } else {
                    0
                },
                ..old(self)@
            }),
    {
        self.cursor = if self.cursor > 0 {
            self.cursor - 1
        } else {
            0
        };
    }

    /// Appends `c` to the value of the row under the cursor.
    pub fn type_char(&mut self, c: char)
        requires
            old(self).cursor < old(self).rows.len(),
        ensures
            final(self)@ == (EditView {
                rows: set_row_value(
                    old(self)@.rows,
                    old(self).cursor as int,
                    old(self)@.rows[old(self).cursor as int].value.push(c),
                ),
                ..old(self)@
            }),
    {
        let i = self.cursor;
        let row = &mut self.rows[i];
        crate::text::push_char(&mut row.value, c);
        assert(row_views(self.rows@) =~= set_row_value(
            row_views(old(self).rows@),
            i as int,
            row_views(old(self).rows@)[i as int].value.push(c),
        ));
    }

    /// Deletes the last character of the value of the row under the cursor.
    pub fn delete_char(&mut self)
        requires
            old(self).cursor < old(self).rows.len(),
        ensures
            final(self)@ == (EditView {
                rows: set_row_value(
                    old(self)@.rows,
                    old(self).cursor as int,
                    drop_last_char(old(self)@.rows[old(self).cursor as int].value),
                ),
                ..old(self)@
            }),
    {
        let i = self.cursor;
        let v = without_last_char(self.rows[i].value.as_str());
        let row = &mut self.rows[i];
        row.value = v;
        assert(row_views(self.rows@) =~= set_row_value(
            row_views(old(self).rows@),
            i as int,
            drop_last_char(row_views(old(self).rows@)[i as int].value),
        ));
    }
}


proof fn lemma_apply_profiles_keeps_id(f: FriendView, keys: Seq<Seq<char>>, rows: Seq<RowView>)
    ensures
        apply_profiles(f, keys, rows).id == f.id,
    decreases keys.len(),
{
    if keys.len() > 0 {
        lemma_apply_profiles_keeps_id(f, keys.drop_last(), rows);
    }
}

/// Saving a form into a friend never changes the friend's id.
pub proof fn lemma_applied_keeps_id(rows: Seq<RowView>, f: FriendView)
    ensures
        applied(rows, f).id == f.id,
{
    let f1 = FriendView {
        name: trim(row_value(rows, "name"@)),
        email: nonempty_opt(trim(row_value(rows, "email"@))),
        notes: nonempty_opt(trim(row_value(rows, "notes"@))),
        ..f
    };
    lemma_apply_profiles_keeps_id(f1, prefixes(rows), rows);
}

proof fn lemma_first_index_keys(a: Seq<RowView>, b: Seq<RowView>, k: Seq<char>)
    requires
        a.len() == b.len(),
        forall|j: int| 0 <= j < a.len() ==> #[trigger] a[j].key == b[j].key,
    ensures
        first_index(a, k) == first_index(b, k),
    decreases a.len(),
{
    if a.len() > 0 {
        assert(a.last().key == b.last().key) by {
            assert(a[a.len() - 1].key == b[b.len() - 1].key);
        }
        assert forall|j: int| 0 <= j < a.drop_last().len() implies #[trigger] a.drop_last()[j].key
            == b.drop_last()[j].key by {
            assert(a[j].key == b[j].key);
        }
        lemma_first_index_keys(a.drop_last(), b.drop_last(), k);
    }
}

/// Changing the value of the row that a key finds (the row `get_mut` hands
/// out) makes `get` read the new value for that key.
pub proof fn lemma_get_after_set(rows: Seq<RowView>, k: Seq<char>, v: Seq<char>)
    requires
        first_index(rows, k) >= 0,
    ensures
        row_value(set_row_value(rows, first_index(rows, k), v), k) == v,
{
    let i = first_index(rows, k);
    lemma_first_index_bounds(rows, k);
    let r2 = set_row_value(rows, i, v);
    assert forall|j: int| 0 <= j < rows.len() implies #[trigger] rows[j].key == r2[j].key by {}
    lemma_first_index_keys(rows, r2, k);
}

/// Deleting a character right after typing it gives back the value as it was.
pub proof fn lemma_delete_undoes_type(s: Seq<char>, c: char)
    ensures
        drop_last_char(s.push(c)) == s,
{
    assert(s.push(c).drop_last() =~= s);
}

} // verus!
