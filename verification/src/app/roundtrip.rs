//! What saving the form does to the friend it was filled in from: for a
//! friend whose values the form shows as they are, nothing; and whatever the
//! form holds, the profiles of applets that it has no row for stay as they were.
use vstd::prelude::*;
use crate::app::edit::{
    RowView, applied, apply_profiles, blank_rows, bucket, core_rows, dot_index, field_row, field_rows,
    first_index, friend_rows, nonempty_opt, or_empty, prefixes, registry_rows, row_value,
    lemma_bucket_absent, lemma_dot_index_absent, lemma_prefixes_distinct, lemma_dot_index_prefix, lemma_first_index_absent,
    lemma_first_index_prefix, lemma_first_index_bounds,
};
use crate::apps::{AppletKind, FieldView, standard_applets};
use crate::events::fresh_friend;
use crate::data::friend::{
    FriendView, book_map, book_recs_key, interests_map, job_feed_key, job_map, profile_of,
    wiki_prep_key, with_profile,
};
use crate::data::profile::value_or_empty;
use crate::text::{
    csv_items, is_list_item, is_trimmed, join_with, keep_trimmed, lemma_csv_of_join,
    lemma_join_trimmed, list_sep, split_on, trim,
};

verus! {

/// A key without any `.` in it.
pub open spec fn has_no_dot(k: Seq<char>) -> bool {
    forall|j: int| 0 <= j < k.len() ==> k[j] != '.'
}

/// The profile that the rows of `fields` give back when they show the values
/// of `p`: the trimmed value of each field, where it is not blank.
pub open spec fn field_bucket(fields: Seq<FieldView>, p: Map<Seq<char>, Seq<char>>) -> Map<
    Seq<char>,
    Seq<char>,
>
    decreases fields.len(),
{
    if fields.len() == 0 {
        Map::empty()
    } else {
        let m = field_bucket(fields.drop_last(), p);
        let k = fields.last().key;
        let v = trim(value_or_empty(p, k));
        if v.len() > 0 {
            m.insert(k, v)
        } else {
            m
        }
    }
}

/// The keys of the applets `kinds`, in order.
pub open spec fn applet_keys(kinds: Seq<AppletKind>) -> Seq<Seq<char>> {
    kinds.map_values(|a: AppletKind| a.key_spec())
}

proof fn lemma_key_split(a: Seq<char>, fk: Seq<char>)
    requires
        has_no_dot(a),
    ensures
        dot_index(a + "."@ + fk) == a.len(),
        (a + "."@ + fk).take(a.len() as int) == a,
        (a + "."@ + fk).skip(a.len() as int + 1) == fk,
{
    reveal_strlit(".");
    let k = a + "."@ + fk;
    assert(k.take(a.len() as int) =~= a);
    assert forall|j: int| 0 <= j < k.take(a.len() as int).len() implies #[trigger] k.take(
        a.len() as int,
    )[j] != '.' by {
        assert(k.take(a.len() as int)[j] == a[j]);
    }
    lemma_dot_index_absent(k.take(a.len() as int));
    assert(k.take(a.len() as int + 1).drop_last() =~= k.take(a.len() as int));
    assert(k.take(a.len() as int + 1).last() == '.');
    lemma_dot_index_prefix(k, a.len() as int + 1);
    assert(k.skip(a.len() as int + 1) =~= fk);
}

proof fn lemma_bucket_append(x: Seq<RowView>, y: Seq<RowView>, a: Seq<char>)
    ensures
        bucket(x + y, a) == bucket(x, a).union_prefer_right(bucket(y, a)),
    decreases y.len(),
{
    if y.len() == 0 {
        assert(x + y =~= x);
        assert(bucket(x, a).union_prefer_right(bucket(y, a)) =~= bucket(x, a));
    } else {
        let y0 = y.drop_last();
        lemma_bucket_append(x, y0, a);
        assert((x + y).drop_last() =~= x + y0);
        assert((x + y).last() == y.last());
        let r = y.last();
        let i = dot_index(r.key);
        let v = trim(r.value);
        if i >= 0 && r.key.take(i) == a && v.len() > 0 {
            assert(bucket(x, a).union_prefer_right(bucket(y0, a)).insert(r.key.skip(i + 1), v)
                =~= bucket(x, a).union_prefer_right(bucket(y0, a).insert(r.key.skip(i + 1), v)));
        }
    }
}

proof fn lemma_core_keys()
    ensures
        dot_index("name"@) == -1,
        dot_index("email"@) == -1,
        dot_index("notes"@) == -1,
        "name"@ != "email"@,
        "name"@ != "notes"@,
        "email"@ != "notes"@,
{
    reveal_strlit("name");
    reveal_strlit("email");
    reveal_strlit("notes");
    lemma_dot_index_absent("name"@);
    lemma_dot_index_absent("email"@);
    lemma_dot_index_absent("notes"@);
    assert("email"@[0] != "notes"@[0]);
}

proof fn lemma_core_rows(n: Seq<char>, e: Seq<char>, no: Seq<char>, a: Seq<char>)
    ensures
        bucket(core_rows(n, e, no), a) == Map::<Seq<char>, Seq<char>>::empty(),
        prefixes(core_rows(n, e, no)) == Seq::<Seq<char>>::empty(),
{
    lemma_core_keys();
    let c = core_rows(n, e, no);
    let c2 = c.drop_last();
    let c1 = c2.drop_last();
    let c0 = c1.drop_last();
    assert(c0 =~= Seq::<RowView>::empty());
    assert(bucket(c0, a) == Map::<Seq<char>, Seq<char>>::empty());
    assert(prefixes(c0) == Seq::<Seq<char>>::empty());
    assert(c1.last().key == "name"@);
    assert(c2.last().key == "email"@);
    assert(c.last().key == "notes"@);
    assert(bucket(c1, a) == Map::<Seq<char>, Seq<char>>::empty());
    assert(prefixes(c1) == Seq::<Seq<char>>::empty());
    assert(bucket(c2, a) == Map::<Seq<char>, Seq<char>>::empty());
    assert(prefixes(c2) == Seq::<Seq<char>>::empty());
}

proof fn lemma_field_rows_bucket(
    b: AppletKind,
    fields: Seq<FieldView>,
    p: Map<Seq<char>, Seq<char>>,
    a: Seq<char>,
)
    requires
        has_no_dot(b.key_spec()),
    ensures
        bucket(field_rows(b, fields, p), a) == if b.key_spec() == a {
            field_bucket(fields, p)
        } else {
            Map::<Seq<char>, Seq<char>>::empty()
        },
    decreases fields.len(),
{
    if fields.len() > 0 {
        lemma_field_rows_bucket(b, fields.drop_last(), p, a);
        let fd = fields.last();
        lemma_key_split(b.key_spec(), fd.key);
        let r = field_row(b, fd, p);
        assert(field_rows(b, fields, p).drop_last() =~= field_rows(b, fields.drop_last(), p));
        assert(r.key == b.key_spec() + "."@ + fd.key);
    }
}

proof fn lemma_field_rows_prefixes(
    x: Seq<RowView>,
    b: AppletKind,
    fields: Seq<FieldView>,
    p: Map<Seq<char>, Seq<char>>,
)
    requires
        has_no_dot(b.key_spec()),
    ensures
        prefixes(x + field_rows(b, fields, p)) == if fields.len() == 0 || prefixes(x).contains(
            b.key_spec(),
        ) {
            prefixes(x)
        } else {
            prefixes(x).push(b.key_spec())
        },
    decreases fields.len(),
{
    if fields.len() == 0 {
        assert(x + field_rows(b, fields, p) =~= x);
    } else {
        let f0 = fields.drop_last();
        lemma_field_rows_prefixes(x, b, f0, p);
        let fd = fields.last();
        lemma_key_split(b.key_spec(), fd.key);
        let y = x + field_rows(b, fields, p);
        assert(y.drop_last() =~= x + field_rows(b, f0, p));
        assert(y.last().key == b.key_spec() + "."@ + fd.key);
        let px = prefixes(x);
        if !px.contains(b.key_spec()) && f0.len() > 0 {
            assert(px.push(b.key_spec()).contains(b.key_spec())) by {
                assert(px.push(b.key_spec())[px.len() as int] == b.key_spec());
            }
        }
    }
}

/// Applets whose rows the form can tell apart: distinct keys without a `.`,
/// each with at least one field.
pub open spec fn distinct_applets(kinds: Seq<AppletKind>) -> bool {
    &&& applet_keys(kinds).no_duplicates()
    &&& forall|i: int| 0 <= i < kinds.len() ==> has_no_dot(#[trigger] kinds[i].key_spec())
    &&& forall|i: int| 0 <= i < kinds.len() ==> (#[trigger] kinds[i].fields_spec()).len() > 0
}

proof fn lemma_distinct_prefix(kinds: Seq<AppletKind>)
    requires
        kinds.len() > 0,
        distinct_applets(kinds),
    ensures
        distinct_applets(kinds.drop_last()),
        applet_keys(kinds.drop_last()) == applet_keys(kinds).drop_last(),
        !applet_keys(kinds.drop_last()).contains(kinds.last().key_spec()),
        has_no_dot(kinds.last().key_spec()),
{
    let k0 = kinds.drop_last();
    assert(applet_keys(k0) =~= applet_keys(kinds).drop_last());
    assert forall|i: int| 0 <= i < k0.len() implies has_no_dot(#[trigger] k0[i].key_spec()) by {
        assert(k0[i] == kinds[i]);
    }
    assert forall|i: int| 0 <= i < k0.len() implies (#[trigger] k0[i].fields_spec()).len() > 0 by {
        assert(k0[i] == kinds[i]);
    }
    assert(has_no_dot(kinds[kinds.len() - 1].key_spec()));
    if applet_keys(k0).contains(kinds.last().key_spec()) {
        let j = choose|j: int| 0 <= j < applet_keys(k0).len() && applet_keys(k0)[j] == kinds.last().key_spec();
        assert(applet_keys(kinds)[j] == applet_keys(kinds)[kinds.len() - 1]);
    }
}

proof fn lemma_registry_prefixes(
    c: Seq<RowView>,
    kinds: Seq<AppletKind>,
    pf: spec_fn(Seq<char>) -> Map<Seq<char>, Seq<char>>,
)
    requires
        prefixes(c) == Seq::<Seq<char>>::empty(),
        distinct_applets(kinds),
    ensures
        prefixes(c + registry_rows(kinds, pf)) == applet_keys(kinds),
    decreases kinds.len(),
{
    if kinds.len() == 0 {
        assert(c + registry_rows(kinds, pf) =~= c);
        assert(applet_keys(kinds) =~= Seq::<Seq<char>>::empty());
    } else {
        let k0 = kinds.drop_last();
        let a = kinds.last();
        lemma_distinct_prefix(kinds);
        lemma_registry_prefixes(c, k0, pf);
        assert(c + registry_rows(kinds, pf) =~= (c + registry_rows(k0, pf)) + field_rows(
            a,
            a.fields_spec(),
            pf(a.key_spec()),
        ));
        lemma_field_rows_prefixes(c + registry_rows(k0, pf), a, a.fields_spec(), pf(a.key_spec()));
        assert(a.fields_spec().len() > 0) by {
            assert(kinds[kinds.len() - 1] == a);
        }
        assert(applet_keys(kinds) =~= applet_keys(k0).push(a.key_spec()));
    }
}

proof fn lemma_registry_bucket(
    c: Seq<RowView>,
    kinds: Seq<AppletKind>,
    pf: spec_fn(Seq<char>) -> Map<Seq<char>, Seq<char>>,
    i: int,
)
    requires
        prefixes(c) == Seq::<Seq<char>>::empty(),
        forall|a: Seq<char>| #[trigger] bucket(c, a) == Map::<Seq<char>, Seq<char>>::empty(),
        distinct_applets(kinds),
        0 <= i < kinds.len(),
    ensures
        bucket(c + registry_rows(kinds, pf), kinds[i].key_spec()) == field_bucket(
            kinds[i].fields_spec(),
            pf(kinds[i].key_spec()),
        ),
    decreases kinds.len(),
{
    let k0 = kinds.drop_last();
    let a = kinds.last();
    let key = kinds[i].key_spec();
    lemma_distinct_prefix(kinds);
    let x = c + registry_rows(k0, pf);
    let y = field_rows(a, a.fields_spec(), pf(a.key_spec()));
    assert(c + registry_rows(kinds, pf) =~= x + y);
    lemma_bucket_append(x, y, key);
    lemma_field_rows_bucket(a, a.fields_spec(), pf(a.key_spec()), key);
    if i == kinds.len() - 1 {
        lemma_registry_prefixes(c, k0, pf);
        lemma_bucket_absent(x, key);
        assert(Map::<Seq<char>, Seq<char>>::empty().union_prefer_right(
            field_bucket(a.fields_spec(), pf(a.key_spec())),
        ) =~= field_bucket(a.fields_spec(), pf(a.key_spec())));
    } else {
        assert(k0[i] == kinds[i]);
        lemma_registry_bucket(c, k0, pf, i);
        assert(applet_keys(kinds)[i] != applet_keys(kinds)[kinds.len() - 1]);
        assert(a.key_spec() != key);
        assert(bucket(x, key).union_prefer_right(Map::<Seq<char>, Seq<char>>::empty()) =~= bucket(
            x,
            key,
        ));
    }
}

/// Whether one of `fields` has key `k`.
pub open spec fn has_field(fields: Seq<FieldView>, k: Seq<char>) -> bool {
    exists|i: int| 0 <= i < fields.len() && (#[trigger] fields[i]).key == k
}

/// A value that the form shows and reads back as it is: trimmed and not blank.
pub open spec fn kept_value(s: Seq<char>) -> bool {
    s.len() > 0 && is_trimmed(s)
}

pub open spec fn kept_opt(o: Option<Seq<char>>) -> bool {
    match o {
        Some(s) => kept_value(s),
        None => true,
    }
}

/// List items that the form shows joined by `", "` and reads back as they are.
pub open spec fn kept_list(items: Seq<Seq<char>>) -> bool {
    forall|i: int| 0 <= i < items.len() ==> is_list_item(#[trigger] items[i])
}

/// A profile that the rows of `fields` show and read back as it is: every
/// key is one of the fields and every value is kept.
pub open spec fn kept_profile(fields: Seq<FieldView>, p: Map<Seq<char>, Seq<char>>) -> bool {
    forall|k: Seq<char>| #[trigger] p.contains_key(k) ==> kept_value(p[k]) && has_field(fields, k)
}

proof fn lemma_trim_empty()
    ensures
        trim(Seq::<char>::empty()) == Seq::<char>::empty(),
{
    assert(crate::text::trim_start(Seq::<char>::empty()) == Seq::<char>::empty());
    assert(crate::text::trim_end(Seq::<char>::empty()) == Seq::<char>::empty());
}

proof fn lemma_field_bucket(fields: Seq<FieldView>, p: Map<Seq<char>, Seq<char>>, k: Seq<char>)
    ensures
        field_bucket(fields, p).contains_key(k) <==> has_field(fields, k) && trim(
            value_or_empty(p, k),
        ).len() > 0,
        field_bucket(fields, p).contains_key(k) ==> field_bucket(fields, p)[k] == trim(
            value_or_empty(p, k),
        ),
    decreases fields.len(),
{
    if fields.len() > 0 {
        let f0 = fields.drop_last();
        lemma_field_bucket(f0, p, k);
        if has_field(f0, k) {
            let i = choose|i: int| 0 <= i < f0.len() && (#[trigger] f0[i]).key == k;
            assert(fields[i] == f0[i]);
        }
        if has_field(fields, k) && fields.last().key != k {
            let i = choose|i: int| 0 <= i < fields.len() && (#[trigger] fields[i]).key == k;
            assert(i < fields.len() - 1);
            assert(f0[i] == fields[i]);
        }
        if fields.last().key == k {
            assert(fields[fields.len() - 1].key == k);
        }
    }
}

/// The rows of `fields` give back a kept profile exactly.
proof fn lemma_field_bucket_kept(fields: Seq<FieldView>, p: Map<Seq<char>, Seq<char>>)
    requires
        kept_profile(fields, p),
    ensures
        field_bucket(fields, p) == p,
{
    lemma_trim_empty();
    assert forall|k: Seq<char>| #[trigger] field_bucket(fields, p).contains_key(k) <==> p.contains_key(k) by {
        lemma_field_bucket(fields, p, k);
    }
    assert forall|k: Seq<char>| #[trigger] field_bucket(fields, p).contains_key(k) implies field_bucket(fields, p)[k] == p[k] by {
        lemma_field_bucket(fields, p, k);
    }
    assert(field_bucket(fields, p) =~= p);
}

proof fn lemma_no_dot_8(k: Seq<char>)
    requires
        k.len() <= 9,
        k.len() > 0 ==> k[0] != '.',
        k.len() > 1 ==> k[1] != '.',
        k.len() > 2 ==> k[2] != '.',
        k.len() > 3 ==> k[3] != '.',
        k.len() > 4 ==> k[4] != '.',
        k.len() > 5 ==> k[5] != '.',
        k.len() > 6 ==> k[6] != '.',
        k.len() > 7 ==> k[7] != '.',
        k.len() > 8 ==> k[8] != '.',
    ensures
        has_no_dot(k),
{
    assert forall|j: int| 0 <= j < k.len() implies k[j] != '.' by {
        assert(j == 0 || j == 1 || j == 2 || j == 3 || j == 4 || j == 5 || j == 6 || j == 7 || j
            == 8);
    }
}

/// The applets of the application have distinct keys without a `.`, and
/// each asks for at least one field.
pub proof fn lemma_standard_applets_distinct()
    ensures
        distinct_applets(standard_applets()),
{
    reveal_strlit("job_feed");
    reveal_strlit("book_recs");
    reveal_strlit("wiki_prep");
    reveal_strlit("birthday");
    reveal_strlit("discord");
    let ks = standard_applets();
    let keys = applet_keys(ks);
    lemma_no_dot_8("job_feed"@);
    lemma_no_dot_8("book_recs"@);
    lemma_no_dot_8("wiki_prep"@);
    lemma_no_dot_8("birthday"@);
    lemma_no_dot_8("discord"@);
    assert(keys[0] == "job_feed"@);
    assert(keys[1] == "book_recs"@);
    assert(keys[2] == "wiki_prep"@);
    assert(keys[3] == "birthday"@);
    assert(keys[4] == "discord"@);
    assert("job_feed"@[0] != "birthday"@[0]);
    assert("book_recs"@[0] != "wiki_prep"@[0]);
    assert forall|i: int, j: int| 0 <= i < keys.len() && 0 <= j < keys.len() && i != j implies keys[i] != keys[j] by {
        if keys[i] == keys[j] {
            assert(keys[i][0] == keys[j][0]);
            assert(keys[i].len() == keys[j].len());
        }
    }
    assert forall|i: int| 0 <= i < ks.len() implies has_no_dot(#[trigger] ks[i].key_spec()) by {
        assert(ks[i].key_spec() == keys[i]);
    }
    assert forall|i: int| 0 <= i < ks.len() implies (#[trigger] ks[i].fields_spec()).len() > 0 by {
        assert(i == 0 || i == 1 || i == 2 || i == 3 || i == 4);
    }
}

/// The profile that friend `f` keeps for applet `a` outside its own fields,
/// where it has one, is not empty and is made of kept values of `a`'s fields.
pub open spec fn extra_stable(f: FriendView, a: AppletKind) -> bool {
    f.extra.contains_key(a.key_spec()) ==> !f.extra[a.key_spec()].dom().is_empty() && kept_profile(
        a.fields_spec(),
        f.extra[a.key_spec()],
    )
}

/// A friend whose values the form shows as they are, so that saving the form
/// filled in from it gives it back: a trimmed name; email and notes absent or
/// kept; list items without commas; a job hunt or a reading profile only when
/// it holds something, with kept values; and the birthday and Discord
/// profiles, where present, not empty and made of kept values of their fields.
pub open spec fn form_stable(f: FriendView) -> bool {
    &&& is_trimmed(f.name)
    &&& kept_opt(f.email)
    &&& kept_opt(f.notes)
    &&& kept_list(f.interests)
    &&& match f.job_hunt {
        Some(j) => {
            &&& is_trimmed(j.desired_role)
            &&& kept_list(j.skills)
            &&& kept_opt(j.location)
            &&& kept_opt(j.remote_preference)
            &&& kept_opt(j.experience_level)
            &&& (j.desired_role.len() > 0 || j.skills.len() > 0 || j.location is Some
                || j.remote_preference is Some || j.experience_level is Some)
        },
        None => true,
    }
    &&& match f.book_profile {
        Some(b) => kept_list(b.genres) && kept_list(b.authors) && (b.genres.len() > 0
            || b.authors.len() > 0),
        None => true,
    }
    &&& extra_stable(f, AppletKind::Birthday)
    &&& extra_stable(f, AppletKind::Discord)
}

proof fn lemma_job_fixed(f: FriendView)
    requires
        form_stable(f),
    ensures
        with_profile(
            f,
            AppletKind::JobFeed.key_spec(),
            field_bucket(AppletKind::JobFeed.fields_spec(), profile_of(f, AppletKind::JobFeed.key_spec())),
        ) == f,
{
    reveal_strlit("desired_role");
    reveal_strlit("skills");
    reveal_strlit("location");
    reveal_strlit("remote_preference");
    reveal_strlit("experience_level");
    let fields = AppletKind::JobFeed.fields_spec();
    match f.job_hunt {
        None => {
            lemma_field_bucket_kept(fields, Map::empty());
        },
        Some(j) => {
            let m = job_map(j);
            lemma_join_trimmed(j.skills);
            lemma_csv_of_join(j.skills);
            assert(fields[0].key == "desired_role"@);
            assert(fields[1].key == "skills"@);
            assert(fields[2].key == "location"@);
            assert(fields[3].key == "remote_preference"@);
            assert(fields[4].key == "experience_level"@);
            assert forall|k: Seq<char>| #[trigger] m.contains_key(k) implies kept_value(m[k])
                && has_field(fields, k) by {
                if k == "desired_role"@ {
                    assert(fields[0].key == k);
                } else if k == "skills"@ {
                    assert(fields[1].key == k);
                } else if k == "location"@ {
                    assert(fields[2].key == k);
                } else if k == "remote_preference"@ {
                    assert(fields[3].key == k);
                } else {
                    assert(fields[4].key == k);
                }
            }
            lemma_field_bucket_kept(fields, m);
            if j.desired_role.len() > 0 {
                assert(m.contains_key("desired_role"@));
            } else if j.skills.len() > 0 {
                assert(m.contains_key("skills"@));
            } else if j.location is Some {
                assert(m.contains_key("location"@));
            } else if j.remote_preference is Some {
                assert(m.contains_key("remote_preference"@));
            } else {
                assert(m.contains_key("experience_level"@));
            }
            lemma_trim_empty();
            assert(value_or_empty(m, "desired_role"@) == j.desired_role);
            assert(csv_items(value_or_empty(m, "skills"@)) == j.skills);
            assert(m.index_opt("location"@) == j.location);
            assert(m.index_opt("remote_preference"@) == j.remote_preference);
            assert(m.index_opt("experience_level"@) == j.experience_level);
        },
    }
}

proof fn lemma_book_fixed(f: FriendView)
    requires
        form_stable(f),
    ensures
        with_profile(
            f,
            AppletKind::BookRecs.key_spec(),
            field_bucket(AppletKind::BookRecs.fields_spec(), profile_of(f, AppletKind::BookRecs.key_spec())),
        ) == f,
{
    reveal_strlit("genres");
    reveal_strlit("authors");
    reveal_strlit("job_feed");
    reveal_strlit("book_recs");
    let fields = AppletKind::BookRecs.fields_spec();
    assert("book_recs"@ != "job_feed"@) by {
        assert("book_recs"@.len() != "job_feed"@.len());
    }
    match f.book_profile {
        None => {
            lemma_field_bucket_kept(fields, Map::empty());
            assert(Map::<Seq<char>, Seq<char>>::empty().dom().is_empty()) by {
                assert(Map::<Seq<char>, Seq<char>>::empty().dom() =~= Set::empty());
            }
        },
        Some(b) => {
            let m = book_map(b);
            lemma_join_trimmed(b.genres);
            lemma_csv_of_join(b.genres);
            lemma_join_trimmed(b.authors);
            lemma_csv_of_join(b.authors);
            assert(fields[0].key == "genres"@);
            assert(fields[1].key == "authors"@);
            assert forall|k: Seq<char>| #[trigger] m.contains_key(k) implies kept_value(m[k])
                && has_field(fields, k) by {
                if k == "genres"@ {
                    assert(fields[0].key == k);
                } else {
                    assert(fields[1].key == k);
                }
            }
            lemma_field_bucket_kept(fields, m);
            if b.genres.len() > 0 {
                assert(m.contains_key("genres"@));
            } else {
                assert(m.contains_key("authors"@));
            }
            assert(csv_items(value_or_empty(m, "genres"@)) == b.genres);
            assert(csv_items(value_or_empty(m, "authors"@)) == b.authors);
        },
    }
}

proof fn lemma_wiki_fixed(f: FriendView)
    requires
        form_stable(f),
    ensures
        with_profile(
            f,
            AppletKind::WikiPrep.key_spec(),
            field_bucket(AppletKind::WikiPrep.fields_spec(), profile_of(f, AppletKind::WikiPrep.key_spec())),
        ) == f,
{
    reveal_strlit("interests");
    reveal_strlit("job_feed");
    reveal_strlit("book_recs");
    reveal_strlit("wiki_prep");
    let fields = AppletKind::WikiPrep.fields_spec();
    assert("wiki_prep"@ != "job_feed"@) by {
        assert("wiki_prep"@.len() != "job_feed"@.len());
    }
    assert("wiki_prep"@ != "book_recs"@) by {
        assert("wiki_prep"@[0] != "book_recs"@[0]);
    }
    let m = interests_map(f.interests);
    lemma_join_trimmed(f.interests);
    lemma_csv_of_join(f.interests);
    assert(fields[0].key == "interests"@);
    assert forall|k: Seq<char>| #[trigger] m.contains_key(k) implies kept_value(m[k]) && has_field(
        fields,
        k,
    ) by {
        assert(fields[0].key == k);
    }
    lemma_field_bucket_kept(fields, m);
    assert(csv_items(value_or_empty(m, "interests"@)) == f.interests);
}

proof fn lemma_extra_fixed(f: FriendView, a: AppletKind)
    requires
        a == AppletKind::Birthday || a == AppletKind::Discord,
        extra_stable(f, a),
    ensures
        with_profile(f, a.key_spec(), field_bucket(a.fields_spec(), profile_of(f, a.key_spec())))
            == f,
{
    reveal_strlit("job_feed");
    reveal_strlit("book_recs");
    reveal_strlit("wiki_prep");
    reveal_strlit("birthday");
    reveal_strlit("discord");
    let k = a.key_spec();
    assert(k != "job_feed"@ && k != "book_recs"@ && k != "wiki_prep"@) by {
        assert(k[0] != 'j' || k.len() != 8);
        if a == AppletKind::Birthday {
            assert(k[0] == 'b');
            assert("book_recs"@.len() == 9);
        } else {
            assert(k.len() == 7);
        }
    }
    if f.extra.contains_key(k) {
        lemma_field_bucket_kept(a.fields_spec(), f.extra[k]);
        assert(f.extra.insert(k, f.extra[k]) =~= f.extra);
    } else {
        lemma_field_bucket_kept(a.fields_spec(), Map::empty());
        assert(f.extra.remove(k) =~= f.extra);
    }
}

proof fn lemma_apply_profiles_fixed(f: FriendView, keys: Seq<Seq<char>>, rows: Seq<RowView>)
    requires
        forall|i: int|
            0 <= i < keys.len() ==> with_profile(f, #[trigger] keys[i], bucket(rows, keys[i])) == f,
    ensures
        apply_profiles(f, keys, rows) == f,
    decreases keys.len(),
{
    if keys.len() > 0 {
        let k0 = keys.drop_last();
        assert forall|i: int| 0 <= i < k0.len() implies with_profile(
            f,
            #[trigger] k0[i],
            bucket(rows, k0[i]),
        ) == f by {
            assert(k0[i] == keys[i]);
        }
        lemma_apply_profiles_fixed(f, k0, rows);
        assert(keys[keys.len() - 1] == keys.last());
    }
}

proof fn lemma_core_values(n: Seq<char>, e: Seq<char>, no: Seq<char>, rest: Seq<RowView>)
    ensures
        row_value(core_rows(n, e, no) + rest, "name"@) == n,
        row_value(core_rows(n, e, no) + rest, "email"@) == e,
        row_value(core_rows(n, e, no) + rest, "notes"@) == no,
{
    lemma_core_keys();
    let rows = core_rows(n, e, no) + rest;
    let t1 = rows.take(1);
    let t2 = rows.take(2);
    let t3 = rows.take(3);
    assert(t1.drop_last() =~= Seq::<RowView>::empty());
    assert(t2.drop_last() =~= t1);
    assert(t3.drop_last() =~= t2);
    assert(t1.last().key == "name"@);
    assert(t2.last().key == "email"@);
    assert(t3.last().key == "notes"@);
    assert(first_index(Seq::<RowView>::empty(), "name"@) == -1);
    assert(first_index(Seq::<RowView>::empty(), "email"@) == -1);
    assert(first_index(Seq::<RowView>::empty(), "notes"@) == -1);
    assert(first_index(t1, "name"@) == 0);
    assert(first_index(t1, "email"@) == -1);
    assert(first_index(t1, "notes"@) == -1);
    assert(first_index(t2, "email"@) == 1);
    assert(first_index(t2, "notes"@) == -1);
    assert(first_index(t3, "notes"@) == 2);
    lemma_first_index_prefix(rows, "name"@, 1);
    lemma_first_index_prefix(rows, "email"@, 2);
    lemma_first_index_prefix(rows, "notes"@, 3);
}

/// Filling in the form from a friend and saving it straight back gives the
/// friend back unchanged, for every friend whose values the form shows as
/// they are (see `form_stable`).
pub proof fn lemma_form_roundtrip(f: FriendView)
    requires
        form_stable(f),
    ensures
        applied(friend_rows(standard_applets(), f), f) == f,
{
    let kinds = standard_applets();
    let pf = |k: Seq<char>| profile_of(f, k);
    let c = core_rows(f.name, or_empty(f.email), or_empty(f.notes));
    let rows = friend_rows(kinds, f);
    assert(rows == c + registry_rows(kinds, pf));
    lemma_core_values(f.name, or_empty(f.email), or_empty(f.notes), registry_rows(kinds, pf));
    lemma_trim_empty();
    let f1 = FriendView {
        name: trim(row_value(rows, "name"@)),
        email: nonempty_opt(trim(row_value(rows, "email"@))),
        notes: nonempty_opt(trim(row_value(rows, "notes"@))),
        ..f
    };
    assert(f1 == f);
    lemma_standard_applets_distinct();
    assert forall|a: Seq<char>| #[trigger] bucket(c, a) == Map::<Seq<char>, Seq<char>>::empty() by {
        lemma_core_rows(f.name, or_empty(f.email), or_empty(f.notes), a);
    }
    lemma_core_rows(f.name, or_empty(f.email), or_empty(f.notes), Seq::empty());
    lemma_registry_prefixes(c, kinds, pf);
    let keys = applet_keys(kinds);
    assert forall|i: int| 0 <= i < keys.len() implies with_profile(
        f,
        #[trigger] keys[i],
        bucket(rows, keys[i]),
    ) == f by {
        lemma_registry_bucket(c, kinds, pf, i);
        assert(keys[i] == kinds[i].key_spec());
        if i == 0 {
            lemma_job_fixed(f);
        } else if i == 1 {
            lemma_book_fixed(f);
        } else if i == 2 {
            lemma_wiki_fixed(f);
        } else {
            lemma_extra_fixed(f, kinds[i]);
        }
    }
    lemma_apply_profiles_fixed(f, keys, rows);
}

proof fn lemma_with_profile_other(
    g: FriendView,
    k2: Seq<char>,
    m: Map<Seq<char>, Seq<char>>,
    k: Seq<char>,
)
    requires
        k != k2,
    ensures
        profile_of(with_profile(g, k2, m), k) == profile_of(g, k),
        with_profile(g, k2, m).extra.contains_key(k) == g.extra.contains_key(k),
        g.extra.contains_key(k) ==> with_profile(g, k2, m).extra[k] == g.extra[k],
{
}

proof fn lemma_apply_profiles_other(
    f: FriendView,
    keys: Seq<Seq<char>>,
    rows: Seq<RowView>,
    k: Seq<char>,
)
    requires
        !keys.contains(k),
    ensures
        profile_of(apply_profiles(f, keys, rows), k) == profile_of(f, k),
        apply_profiles(f, keys, rows).extra.contains_key(k) == f.extra.contains_key(k),
        f.extra.contains_key(k) ==> apply_profiles(f, keys, rows).extra[k] == f.extra[k],
    decreases keys.len(),
{
    if keys.len() > 0 {
        let k0 = keys.drop_last();
        assert(!k0.contains(k)) by {
            if k0.contains(k) {
                let j = choose|j: int| 0 <= j < k0.len() && k0[j] == k;
                assert(keys[j] == k);
            }
        }
        assert(keys.last() != k) by {
            assert(keys[keys.len() - 1] == keys.last());
        }
        lemma_apply_profiles_other(f, k0, rows, k);
        lemma_with_profile_other(
            apply_profiles(f, k0, rows),
            keys.last(),
            bucket(rows, keys.last()),
            k,
        );
    }
}

/// Saving a form leaves the profile of every applet that no row of the form
/// names as it was, and so also what the friend keeps under that key.
pub proof fn lemma_applied_keeps_unnamed_profiles(rows: Seq<RowView>, f: FriendView, k: Seq<char>)
    requires
        !prefixes(rows).contains(k),
    ensures
        profile_of(applied(rows, f), k) == profile_of(f, k),
        applied(rows, f).extra.contains_key(k) == f.extra.contains_key(k),
        f.extra.contains_key(k) ==> applied(rows, f).extra[k] == f.extra[k],
{
    let f1 = FriendView {
        name: trim(row_value(rows, "name"@)),
        email: nonempty_opt(trim(row_value(rows, "email"@))),
        notes: nonempty_opt(trim(row_value(rows, "notes"@))),
        ..f
    };
    lemma_apply_profiles_other(f1, prefixes(rows), rows, k);
}

proof fn lemma_profile_after_set(g: FriendView, k: Seq<char>, m: Map<Seq<char>, Seq<char>>)
    ensures
        m.dom().is_empty() ==> profile_of(with_profile(g, k, m), k).dom().is_empty(),
        k != job_feed_key() && k != book_recs_key() && k != wiki_prep_key() ==> profile_of(
            with_profile(g, k, m),
            k,
        ) == m,
{
    if m.dom().is_empty() {
        assert(m =~= Map::<Seq<char>, Seq<char>>::empty());
        if k == wiki_prep_key() {
            lemma_trim_empty();
            let e = Seq::<char>::empty();
            assert(value_or_empty(m, "interests"@) == e);
            assert(split_on(e, ',') == seq![e]);
            assert(seq![e].drop_last() =~= Seq::<Seq<char>>::empty());
            assert(keep_trimmed(seq![e].drop_last()) == Seq::<Seq<char>>::empty());
            assert(csv_items(e) == Seq::<Seq<char>>::empty());
            assert(join_with(Seq::<Seq<char>>::empty(), list_sep()) == e);
            assert(profile_of(with_profile(g, k, m), k) =~= Map::<Seq<char>, Seq<char>>::empty());
        }
        assert(profile_of(with_profile(g, k, m), k).dom() =~= Set::empty());
    }
}

proof fn lemma_apply_profiles_at(f: FriendView, keys: Seq<Seq<char>>, rows: Seq<RowView>, k: Seq<char>)
    requires
        keys.no_duplicates(),
        keys.contains(k),
    ensures
        exists|g: FriendView|
            #[trigger] profile_of(apply_profiles(f, keys, rows), k) == profile_of(
                with_profile(g, k, bucket(rows, k)),
                k,
            ),
    decreases keys.len(),
{
    let k0 = keys.drop_last();
    let prev = apply_profiles(f, k0, rows);
    if keys.last() == k {
        assert(profile_of(apply_profiles(f, keys, rows), k) == profile_of(
            with_profile(prev, k, bucket(rows, k)),
            k,
        ));
    } else {
        assert(k0.contains(k)) by {
            let j = choose|j: int| 0 <= j < keys.len() && keys[j] == k;
            assert(j != keys.len() - 1);
            assert(k0[j] == k);
        }
        assert(k0.no_duplicates()) by {
            assert forall|i: int, j: int| 0 <= i < j < k0.len() implies k0[i] != k0[j] by {
                assert(k0[i] == keys[i] && k0[j] == keys[j]);
            }
        }
        lemma_apply_profiles_at(f, k0, rows, k);
        lemma_with_profile_other(prev, keys.last(), bucket(rows, keys.last()), k);
    }
}

/// Saving a form in which every row of an applet is blank leaves the friend
/// without a profile for that applet; and for an applet other than the job
/// feed, book recommendations and conversation prep, the profile becomes
/// exactly the trimmed, non-blank values of its rows.
pub proof fn lemma_applied_sets_named_profiles(rows: Seq<RowView>, f: FriendView, k: Seq<char>)
    requires
        prefixes(rows).contains(k),
    ensures
        bucket(rows, k).dom().is_empty() ==> profile_of(applied(rows, f), k).dom().is_empty(),
        k != job_feed_key() && k != book_recs_key() && k != wiki_prep_key() ==> profile_of(
            applied(rows, f),
            k,
        ) == bucket(rows, k),
{
    let f1 = FriendView {
        name: trim(row_value(rows, "name"@)),
        email: nonempty_opt(trim(row_value(rows, "email"@))),
        notes: nonempty_opt(trim(row_value(rows, "notes"@))),
        ..f
    };
    lemma_prefixes_distinct(rows);
    lemma_apply_profiles_at(f1, prefixes(rows), rows, k);
    let g = choose|g: FriendView|
        #[trigger] profile_of(apply_profiles(f1, prefixes(rows), rows), k) == profile_of(
            with_profile(g, k, bucket(rows, k)),
            k,
        );
    lemma_profile_after_set(g, k, bucket(rows, k));
}

/// The blank form is the form filled in from a friend with no name and
/// nothing else.
pub proof fn lemma_blank_is_empty_friend(kinds: Seq<AppletKind>, id: Seq<char>)
    ensures
        blank_rows(kinds) == friend_rows(kinds, fresh_friend(id, Seq::empty())),
{
    let f = fresh_friend(id, Seq::empty());
    let pf = |k: Seq<char>| profile_of(f, k);
    let pb = |k: Seq<char>| Map::<Seq<char>, Seq<char>>::empty();
    assert(join_with(Seq::<Seq<char>>::empty(), list_sep()) == Seq::<char>::empty());
    assert forall|k: Seq<char>| #[trigger] pf(k) == pb(k) by {
        assert(profile_of(f, k) =~= Map::<Seq<char>, Seq<char>>::empty());
    }
    assert(pf =~= pb);
}

proof fn lemma_job_field_keys()
    ensures
        "desired_role"@ != "skills"@,
        "desired_role"@ != "location"@,
        "desired_role"@ != "remote_preference"@,
        "desired_role"@ != "experience_level"@,
        "skills"@ != "location"@,
        "skills"@ != "remote_preference"@,
        "skills"@ != "experience_level"@,
        "location"@ != "remote_preference"@,
        "location"@ != "experience_level"@,
        "remote_preference"@ != "experience_level"@,
{
    reveal_strlit("desired_role");
    reveal_strlit("skills");
    reveal_strlit("location");
    reveal_strlit("remote_preference");
    reveal_strlit("experience_level");
    assert("desired_role"@.len() == 12);
    assert("skills"@.len() == 6);
    assert("location"@.len() == 8);
    assert("remote_preference"@.len() == 17);
    assert("experience_level"@.len() == 16);
}

/// The job feed profile of a friend with a job hunt shows each job-hunt
/// field under the field key of the same name: the desired role, the skills
/// joined by `", "`, and the location, remote preference and experience
/// level (empty when absent).
pub proof fn lemma_job_profile_fields(f: FriendView)
    requires
        f.job_hunt is Some,
    ensures
        ({
            let j = f.job_hunt->Some_0;
            let p = profile_of(f, job_feed_key());
            &&& value_or_empty(p, "desired_role"@) == j.desired_role
            &&& value_or_empty(p, "skills"@) == join_with(j.skills, list_sep())
            &&& value_or_empty(p, "location"@) == or_empty(j.location)
            &&& value_or_empty(p, "remote_preference"@) == or_empty(j.remote_preference)
            &&& value_or_empty(p, "experience_level"@) == or_empty(j.experience_level)
        }),
{
    lemma_job_field_keys();
}

proof fn lemma_with_profile_keeps_job(g: FriendView, k: Seq<char>, m: Map<Seq<char>, Seq<char>>)
    requires
        k != job_feed_key(),
    ensures
        with_profile(g, k, m).job_hunt == g.job_hunt,
{
}

proof fn lemma_apply_profiles_job(f: FriendView, keys: Seq<Seq<char>>, rows: Seq<RowView>)
    requires
        keys.no_duplicates(),
        keys.contains(job_feed_key()),
    ensures
        apply_profiles(f, keys, rows).job_hunt == with_profile(
            f,
            job_feed_key(),
            bucket(rows, job_feed_key()),
        ).job_hunt,
    decreases keys.len(),
{
    let k0 = keys.drop_last();
    if keys.last() != job_feed_key() {
        assert(k0.contains(job_feed_key())) by {
            let j = choose|j: int| 0 <= j < keys.len() && keys[j] == job_feed_key();
            assert(j != keys.len() - 1);
            assert(k0[j] == keys[j]);
        }
        assert(k0.no_duplicates()) by {
            assert forall|i: int, j: int| 0 <= i < j < k0.len() implies k0[i] != k0[j] by {
                assert(k0[i] == keys[i] && k0[j] == keys[j]);
            }
        }
        lemma_apply_profiles_job(f, k0, rows);
        lemma_with_profile_keeps_job(apply_profiles(f, k0, rows), keys.last(), bucket(rows, keys.last()));
    }
}

/// Saving a form that has job feed rows sets the friend's job hunt from
/// them: none when every job feed row is blank; otherwise each field comes
/// from the row of the same name, a blank row giving an empty role or
/// skills and an absent location, remote preference or level.
pub proof fn lemma_applied_job_fields(rows: Seq<RowView>, f: FriendView)
    requires
        prefixes(rows).contains(job_feed_key()),
    ensures
        ({
            let b = bucket(rows, job_feed_key());
            let h = applied(rows, f).job_hunt;
            &&& b.dom().is_empty() ==> h is None
            &&& !b.dom().is_empty() ==> (h matches Some(j) && {
                &&& j.desired_role == value_or_empty(b, "desired_role"@)
                &&& j.skills == csv_items(value_or_empty(b, "skills"@))
                &&& j.location == b.index_opt("location"@)
                &&& j.remote_preference == b.index_opt("remote_preference"@)
                &&& j.experience_level == b.index_opt("experience_level"@)
            })
        }),
{
    let f1 = FriendView {
        name: trim(row_value(rows, "name"@)),
        email: nonempty_opt(trim(row_value(rows, "email"@))),
        notes: nonempty_opt(trim(row_value(rows, "notes"@))),
        ..f
    };
    lemma_prefixes_distinct(rows);
    lemma_apply_profiles_job(f1, prefixes(rows), rows);
}

proof fn lemma_prefixes_has_row(rows: Seq<RowView>, i: int)
    requires
        0 <= i < rows.len(),
        dot_index(rows[i].key) >= 0,
    ensures
        prefixes(rows).contains(rows[i].key.take(dot_index(rows[i].key))),
    decreases rows.len(),
{
    let p = prefixes(rows.drop_last());
    if i < rows.len() - 1 {
        assert(rows.drop_last()[i] == rows[i]);
        lemma_prefixes_has_row(rows.drop_last(), i);
        let a = rows[i].key.take(dot_index(rows[i].key));
        let j = choose|j: int| 0 <= j < p.len() && p[j] == a;
        assert(prefixes(rows)[j] == a);
    } else {
        let a = rows[i].key.take(dot_index(rows[i].key));
        if p.contains(a) {
            let j = choose|j: int| 0 <= j < p.len() && p[j] == a;
            assert(prefixes(rows)[j] == a);
        } else {
            assert(prefixes(rows)[p.len() as int] == a);
        }
    }
}

proof fn lemma_bucket_row(rows: Seq<RowView>, a: Seq<char>, fk: Seq<char>, i: int)
    requires
        has_no_dot(a),
        0 <= i < rows.len(),
        rows[i].key == a + "."@ + fk,
        trim(rows[i].value).len() > 0,
        forall|j: int| i < j < rows.len() ==> #[trigger] rows[j].key != rows[i].key,
    ensures
        bucket(rows, a).contains_key(fk),
        bucket(rows, a)[fk] == trim(rows[i].value),
    decreases rows.len(),
{
    lemma_key_split(a, fk);
    if i < rows.len() - 1 {
        let r0 = rows.drop_last();
        assert(r0[i] == rows[i]);
        assert forall|j: int| i < j < r0.len() implies #[trigger] r0[j].key != r0[i].key by {
            assert(r0[j] == rows[j]);
        }
        lemma_bucket_row(r0, a, fk, i);
        let r = rows.last();
        assert(r.key != rows[i].key) by {
            assert(rows[rows.len() - 1] == r);
        }
        let d = dot_index(r.key);
        if d >= 0 && r.key.take(d) == a && trim(r.value).len() > 0 {
            lemma_dot_found(r.key);
            reveal_strlit(".");
            assert(r.key =~= r.key.take(d) + "."@ + r.key.skip(d + 1));
        }
    } else {
        assert(rows.last() == rows[i]);
    }
}

proof fn lemma_dot_found(k: Seq<char>)
    requires
        dot_index(k) >= 0,
    ensures
        dot_index(k) < k.len(),
        k[dot_index(k)] == '.',
    decreases k.len(),
{
    if k.len() > 0 && dot_index(k.drop_last()) >= 0 {
        lemma_dot_found(k.drop_last());
    }
}

/// Saving a form whose row `job_feed.<field>` (the last row with that key)
/// holds a value that is not blank puts the trimmed value into the job
/// hunt's field of that name: the location, the remote preference or the
/// experience level.
pub proof fn lemma_applied_job_row(rows: Seq<RowView>, f: FriendView, fk: Seq<char>, i: int)
    requires
        fk == "location"@ || fk == "remote_preference"@ || fk == "experience_level"@,
        0 <= i < rows.len(),
        rows[i].key == job_feed_key() + "."@ + fk,
        trim(rows[i].value).len() > 0,
        forall|j: int| i < j < rows.len() ==> #[trigger] rows[j].key != rows[i].key,
    ensures
        applied(rows, f).job_hunt matches Some(jh) && {
            let v = Some(trim(rows[i].value));
            &&& fk == "location"@ ==> jh.location == v
            &&& fk == "remote_preference"@ ==> jh.remote_preference == v
            &&& fk == "experience_level"@ ==> jh.experience_level == v
        },
{
    reveal_strlit("job_feed");
    lemma_no_dot_8("job_feed"@);
    lemma_key_split(job_feed_key(), fk);
    lemma_prefixes_has_row(rows, i);
    lemma_bucket_row(rows, job_feed_key(), fk, i);
    lemma_applied_job_fields(rows, f);
}

proof fn lemma_first_index_append(x: Seq<RowView>, y: Seq<RowView>, k: Seq<char>)
    ensures
        first_index(x + y, k) == if first_index(x, k) >= 0 {
            first_index(x, k)
        } else if first_index(y, k) >= 0 {
            x.len() + first_index(y, k)
        } else {
            -1
        },
    decreases y.len(),
{
    if y.len() == 0 {
        assert(x + y =~= x);
    } else {
        lemma_first_index_append(x, y.drop_last(), k);
        assert((x + y).drop_last() =~= x + y.drop_last());
        assert((x + y).last() == y.last());
    }
}

proof fn lemma_row_value_append(x: Seq<RowView>, y: Seq<RowView>, k: Seq<char>)
    ensures
        first_index(x, k) >= 0 ==> row_value(x + y, k) == row_value(x, k),
        first_index(x, k) < 0 ==> row_value(x + y, k) == row_value(y, k),
        first_index(x + y, k) >= 0 <==> first_index(x, k) >= 0 || first_index(y, k) >= 0,
{
    lemma_first_index_append(x, y, k);
    lemma_first_index_bounds(x, k);
    lemma_first_index_bounds(y, k);
    if first_index(x, k) < 0 && first_index(y, k) >= 0 {
        assert((x + y)[x.len() + first_index(y, k)] == y[first_index(y, k)]);
    }
}

/// Fields whose keys differ from one another.
pub open spec fn distinct_field_keys(fields: Seq<FieldView>) -> bool {
    forall|i: int, j: int| 0 <= i < j < fields.len() ==> fields[i].key != fields[j].key
}

proof fn lemma_field_rows_value(
    a: AppletKind,
    fields: Seq<FieldView>,
    p: Map<Seq<char>, Seq<char>>,
    k: Seq<char>,
)
    requires
        has_no_dot(a.key_spec()),
        distinct_field_keys(fields),
    ensures
        first_index(field_rows(a, fields, p), k) >= 0 <==> exists|j: int|
            0 <= j < fields.len() && k == a.key_spec() + "."@ + (#[trigger] fields[j]).key,
        forall|j: int|
            0 <= j < fields.len() && k == a.key_spec() + "."@ + (#[trigger] fields[j]).key
                ==> row_value(field_rows(a, fields, p), k) == value_or_empty(p, fields[j].key),
    decreases fields.len(),
{
    if fields.len() > 0 {
        let f0 = fields.drop_last();
        assert(distinct_field_keys(f0)) by {
            assert forall|i: int, j: int| 0 <= i < j < f0.len() implies f0[i].key != f0[j].key by {
                assert(f0[i] == fields[i] && f0[j] == fields[j]);
            }
        }
        lemma_field_rows_value(a, f0, p, k);
        let fr = field_rows(a, fields, p);
        assert(fr == field_rows(a, f0, p).push(field_row(a, fields.last(), p)));
        lemma_row_value_append(field_rows(a, f0, p), seq![field_row(a, fields.last(), p)], k);
        assert(field_rows(a, f0, p) + seq![field_row(a, fields.last(), p)] =~= fr);
        let one = seq![field_row(a, fields.last(), p)];
        assert(one.drop_last() =~= Seq::<RowView>::empty());
        assert(first_index(Seq::<RowView>::empty(), k) == -1);
        let last = fields.len() - 1;
        assert(fields[last] == fields.last());
        assert forall|j: int|
            0 <= j < fields.len() && k == a.key_spec() + "."@ + (#[trigger] fields[j]).key implies row_value(fr, k)
                == value_or_empty(p, fields[j].key) by {
            if j < last {
                assert(f0[j] == fields[j]);
            } else {
                if first_index(field_rows(a, f0, p), k) >= 0 {
                    let q = choose|q: int| 0 <= q < f0.len() && k == a.key_spec() + "."@ + (#[trigger] f0[q]).key;
                    lemma_key_split(a.key_spec(), f0[q].key);
                    lemma_key_split(a.key_spec(), fields[j].key);
                    assert(f0[q] == fields[q]);
                    assert(fields[q].key == fields[j].key);
                }
            }
        }
        if first_index(fr, k) >= 0 {
            if first_index(field_rows(a, f0, p), k) >= 0 {
                let q = choose|q: int| 0 <= q < f0.len() && k == a.key_spec() + "."@ + (#[trigger] f0[q]).key;
                assert(fields[q] == f0[q]);
            } else {
                assert(k == a.key_spec() + "."@ + fields[last].key);
            }
        }
        if exists|j: int| 0 <= j < fields.len() && k == a.key_spec() + "."@ + (#[trigger] fields[j]).key {
            let j = choose|j: int| 0 <= j < fields.len() && k == a.key_spec() + "."@ + (#[trigger] fields[j]).key;
            if j < last {
                assert(f0[j] == fields[j]);
            }
        }
    }
}

proof fn lemma_registry_value(
    c: Seq<RowView>,
    kinds: Seq<AppletKind>,
    pf: spec_fn(Seq<char>) -> Map<Seq<char>, Seq<char>>,
    i: int,
    j: int,
)
    requires
        forall|q: int| 0 <= q < c.len() ==> dot_index(#[trigger] c[q].key) < 0,
        distinct_applets(kinds),
        forall|q: int| 0 <= q < kinds.len() ==> distinct_field_keys(#[trigger] kinds[q].fields_spec()),
        0 <= i < kinds.len(),
        0 <= j < kinds[i].fields_spec().len(),
    ensures
        ({
            let k = kinds[i].key_spec() + "."@ + kinds[i].fields_spec()[j].key;
            &&& first_index(c + registry_rows(kinds, pf), k) >= 0
            &&& row_value(c + registry_rows(kinds, pf), k) == value_or_empty(
                pf(kinds[i].key_spec()),
                kinds[i].fields_spec()[j].key,
            )
        }),
    decreases kinds.len(),
{
    let a = kinds[i];
    let k = a.key_spec() + "."@ + a.fields_spec()[j].key;
    let k0 = kinds.drop_last();
    let b = kinds.last();
    lemma_distinct_prefix(kinds);
    assert(has_no_dot(a.key_spec()));
    assert(distinct_field_keys(b.fields_spec())) by {
        assert(kinds[kinds.len() - 1] == b);
    }
    lemma_key_split(a.key_spec(), a.fields_spec()[j].key);
    let x = c + registry_rows(k0, pf);
    let y = field_rows(b, b.fields_spec(), pf(b.key_spec()));
    assert(c + registry_rows(kinds, pf) =~= x + y);
    lemma_row_value_append(x, y, k);
    lemma_field_rows_value(b, b.fields_spec(), pf(b.key_spec()), k);
    if i < kinds.len() - 1 {
        assert(k0[i] == a);
        assert forall|q: int| 0 <= q < k0.len() implies distinct_field_keys(#[trigger] k0[q].fields_spec()) by {
            assert(k0[q] == kinds[q]);
        }
        lemma_registry_value(c, k0, pf, i, j);
    } else {
        assert(a == b);
        lemma_registry_prefixes_nodot(c, k0, pf);
        if first_index(x, k) >= 0 {
            lemma_first_index_bounds(x, k);
            let q = first_index(x, k);
            lemma_prefixes_has_row(x, q);
            assert(prefixes(x).contains(a.key_spec()));
            lemma_registry_prefixes(c, k0, pf);
            let w = choose|w: int| 0 <= w < applet_keys(k0).len() && applet_keys(k0)[w] == a.key_spec();
            assert(applet_keys(k0)[w] == k0[w].key_spec());
        }
    }
}

proof fn lemma_registry_prefixes_nodot(
    c: Seq<RowView>,
    kinds: Seq<AppletKind>,
    pf: spec_fn(Seq<char>) -> Map<Seq<char>, Seq<char>>,
)
    requires
        forall|q: int| 0 <= q < c.len() ==> dot_index(#[trigger] c[q].key) < 0,
    ensures
        prefixes(c) == Seq::<Seq<char>>::empty(),
    decreases c.len(),
{
    if c.len() > 0 {
        let c0 = c.drop_last();
        assert forall|q: int| 0 <= q < c0.len() implies dot_index(#[trigger] c0[q].key) < 0 by {
            assert(c0[q] == c[q]);
        }
        lemma_registry_prefixes_nodot(c0, kinds, pf);
        assert(dot_index(c[c.len() - 1].key) < 0);
    }
}

proof fn lemma_standard_field_keys()
    ensures
        forall|q: int|
            0 <= q < standard_applets().len() ==> distinct_field_keys(
                #[trigger] standard_applets()[q].fields_spec(),
            ),
{
    lemma_job_field_keys();
    reveal_strlit("genres");
    reveal_strlit("authors");
    reveal_strlit("discord_user_id");
    reveal_strlit("default_message");
    assert("genres"@.len() != "authors"@.len());
    assert("discord_user_id"@[1] != "default_message"@[1]);
    assert forall|q: int| 0 <= q < standard_applets().len() implies distinct_field_keys(
        #[trigger] standard_applets()[q].fields_spec(),
    ) by {
        let fs = standard_applets()[q].fields_spec();
        assert forall|i: int, j: int| 0 <= i < j < fs.len() implies fs[i].key != fs[j].key by {
            assert(q == 0 || q == 1 || q == 2 || q == 3 || q == 4);
        }
    }
}

/// The form filled in from a friend shows the friend's name, email and
/// notes (empty when absent) in the rows `name`, `email` and `notes`, and,
/// for every field of every applet, the value the friend's profile for that
/// applet holds under the field's key, in the row `<applet>.<field>`.
pub proof fn lemma_form_shows_friend(f: FriendView, i: int, j: int)
    ensures
        row_value(friend_rows(standard_applets(), f), "name"@) == f.name,
        row_value(friend_rows(standard_applets(), f), "email"@) == or_empty(f.email),
        row_value(friend_rows(standard_applets(), f), "notes"@) == or_empty(f.notes),
        0 <= i < standard_applets().len() && 0 <= j < standard_applets()[i].fields_spec().len()
            ==> row_value(
            friend_rows(standard_applets(), f),
            standard_applets()[i].key_spec() + "."@ + standard_applets()[i].fields_spec()[j].key,
        ) == value_or_empty(
            profile_of(f, standard_applets()[i].key_spec()),
            standard_applets()[i].fields_spec()[j].key,
        ),
{
    let kinds = standard_applets();
    let pf = |k: Seq<char>| profile_of(f, k);
    let c = core_rows(f.name, or_empty(f.email), or_empty(f.notes));
    assert(friend_rows(kinds, f) == c + registry_rows(kinds, pf));
    lemma_core_values(f.name, or_empty(f.email), or_empty(f.notes), registry_rows(kinds, pf));
    if 0 <= i < kinds.len() && 0 <= j < kinds[i].fields_spec().len() {
        lemma_core_keys();
        assert forall|q: int| 0 <= q < c.len() implies dot_index(#[trigger] c[q].key) < 0 by {
            assert(q == 0 || q == 1 || q == 2);
        }
        lemma_standard_applets_distinct();
        lemma_standard_field_keys();
        lemma_registry_value(c, kinds, pf, i, j);
    }
}

} // verus!
