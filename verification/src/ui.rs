//! What the screens show as text: the friend detail panel, the titles of the
//! form rows and of the applet and compose screens, the delete prompt, the
//! part of the form that fits on screen, and long subtitles cut short.
use vstd::prelude::*;
use crate::api::discord::{can_truncate, truncate_str, truncated};
use crate::app::edit::EditRow;
use crate::app::{LoadState, LoadView, load_view};
use crate::apps::{AppletItem, AppletRegistry, FieldView};
use crate::data::friend::{Friend, FriendView, profile_of};
use crate::text::{push_str, views};

verus! {

/// The lines for the fields of one applet: `  <label>: <value>` for each
/// field that the profile holds a non-empty value for.
pub open spec fn field_lines(fields: Seq<FieldView>, p: Map<Seq<char>, Seq<char>>) -> Seq<Seq<char>>
    decreases fields.len(),
{
    if fields.len() == 0 {
        Seq::empty()
    } else {
        let r = field_lines(fields.drop_last(), p);
        let fd = fields.last();
        if p.contains_key(fd.key) && p[fd.key].len() > 0 {
            r.push("  "@ + fd.label + ": "@ + p[fd.key])
        } else {
            r
        }
    }
}

/// For each applet of `kinds` whose profile is not empty: a blank line, the
/// applet's name, and its field lines.
pub open spec fn applet_sections(kinds: Seq<crate::apps::AppletKind>, f: FriendView) -> Seq<Seq<char>>
    decreases kinds.len(),
{
    if kinds.len() == 0 {
        Seq::empty()
    } else {
        let r = applet_sections(kinds.drop_last(), f);
        let a = kinds.last();
        let p = profile_of(f, a.key_spec());
        if p.dom().is_empty() {
            r
        } else {
            r + seq![Seq::<char>::empty(), a.label_spec()] + field_lines(a.fields_spec(), p)
        }
    }
}

/// The detail panel of friend `f`: the name, a blank line, the email and
/// notes where present, then the applet sections.
pub open spec fn detail_text(f: FriendView, kinds: Seq<crate::apps::AppletKind>) -> Seq<Seq<char>> {
    seq![f.name, Seq::<char>::empty()] + match f.email {
        Some(e) => seq!["email:  "@ + e],
        None => Seq::<Seq<char>>::empty(),
    } + match f.notes {
        Some(n) => seq!["notes:  "@ + n],
        None => Seq::<Seq<char>>::empty(),
    } + applet_sections(kinds, f)
}

fn push_line(lines: &mut Vec<String>, line: String)
    ensures
        views(final(lines)@) == views(old(lines)@).push(line@),
{
    lines.push(line);
    assert(views(lines@) =~= views(old(lines)@).push(line@));
}

fn prefixed(a: &str, b: &str) -> (res: String)
    ensures
        res@ == a@ + b@,
{
    let mut s = a.to_string();
    push_str(&mut s, b);
    s
}

/// The lines of the detail panel for `friend`, with a section for every
/// applet of `registry` that the friend has a profile for.
pub fn detail_lines(friend: &Friend, registry: &AppletRegistry) -> (res: Vec<String>)
    ensures
        views(res@) == detail_text(friend@, registry.kinds()),
{
    let mut lines: Vec<String> = Vec::new();
    push_line(&mut lines, friend.name.clone());
    push_line(&mut lines, String::new());
    match &friend.email {
        Some(e) => push_line(&mut lines, prefixed("email:  ", e.as_str())),
        None => {},
    }
    match &friend.notes {
        Some(n) => push_line(&mut lines, prefixed("notes:  ", n.as_str())),
        None => {},
    }
    let ghost head = views(lines@);
    let applets = registry.all();
    let n = applets.len();
    let mut i: usize = 0;
    assert(applets@.take(0) =~= Seq::<crate::apps::AppletKind>::empty());
    assert(views(lines@) =~= head + applet_sections(applets@.take(0), friend@));
    while i < n
        invariant
            n == applets.len(),
            i <= n,
            applets@ == registry.kinds(),
            views(lines@) == head + applet_sections(applets@.take(i as int), friend@),
        decreases n - i,
    {
        let a = applets[i];
        assert(applets@.take(i + 1).drop_last() =~= applets@.take(i as int));
        assert(applets@.take(i + 1).last() == a);
        let profile = friend.profile_for(a.key());
        if !profile.is_empty() {
            let ghost before = views(lines@);
            push_line(&mut lines, String::new());
            push_line(&mut lines, a.name().to_string());
            let fields = a.fields();
            let m = fields.len();
            let mut j: usize = 0;
            let ghost mid = views(lines@);
            assert(a.fields_spec().take(0) =~= Seq::<FieldView>::empty());
            assert(views(lines@) =~= mid + field_lines(a.fields_spec().take(0), profile@));
            while j < m
                invariant
                    m == fields.len(),
                    j <= m,
                    crate::apps::field_views(fields@) == a.fields_spec(),
                    views(lines@) == mid + field_lines(a.fields_spec().take(j as int), profile@),
                decreases m - j,
            {
                let fd = &fields[j];
                let ghost fs = a.fields_spec();
                assert(fs[j as int] == fields@[j as int]@);
                assert(fs.take(j + 1).drop_last() =~= fs.take(j as int));
                assert(fs.take(j + 1).last() == fields@[j as int]@);
                match profile.get(fd.key.as_str()) {
                    Some(v) => {
                        if !v.as_str().is_empty() {
                            let mut line = prefixed("  ", fd.label.as_str());
                            push_str(&mut line, ": ");
                            push_str(&mut line, v.as_str());
                            push_line(&mut lines, line);
                            assert(views(lines@) =~= mid + field_lines(fs.take(j + 1), profile@));
                        } else {
                            assert(views(lines@) =~= mid + field_lines(fs.take(j + 1), profile@));
                        }
                    },
                    None => {
                        assert(views(lines@) =~= mid + field_lines(fs.take(j + 1), profile@));
                    },
                }
                j = j + 1;
            }
            assert(a.fields_spec().take(m as int) =~= a.fields_spec());
            assert(views(lines@) =~= head + applet_sections(applets@.take(i + 1), friend@));
        } else {
            assert(views(lines@) =~= head + applet_sections(applets@.take(i + 1), friend@));
        }
        i = i + 1;
    }
    assert(applets@.take(n as int) =~= applets@);
    assert(views(lines@) =~= detail_text(friend@, registry.kinds()));
    lines
}

/// The title of a form row: its label, and its hint in brackets when it has one.
pub fn row_title(row: &EditRow) -> (res: String)
    ensures
        res@ == match row@.hint {
            Some(h) => " "@ + row@.label + " ("@ + h + ") "@,
            None => " "@ + row@.label + " "@,
        },
{
    let mut s = prefixed(" ", row.label.as_str());
    match &row.hint {
        Some(h) => {
            push_str(&mut s, " (");
            push_str(&mut s, h.as_str());
            push_str(&mut s, ") ");
        },
        None => {
            push_str(&mut s, " ");
        },
    }
    s
}

/// The first form row shown when `visible` rows fit: the cursor's row is the
/// last one shown once it is past the first screenful.
pub fn edit_window_start(cursor: usize, visible: usize) -> (res: usize)
    requires
        visible > 0 || cursor < usize::MAX,
    ensures
        res == if cursor >= visible {
            cursor - visible + 1
        } else {
            0
        },
        visible > 0 ==> res <= cursor < res + visible,
{
    if cursor >= visible {
        cursor - visible + 1
    } else {
        0
    }
}

/// The title of the applet screen: the applet's name and the friend's,
/// and the keys that work there (composing only for Discord).
pub fn applet_title(applet_name: &str, friend_name: &str, key: &str) -> (res: String)
    ensures
        res@ == " "@ + applet_name@ + ": "@ + friend_name@ + "  [esc]back [r]refresh"@ + (if key@
            == "discord"@ {
            " [c]compose"@
        } else {
            Seq::<char>::empty()
        }) + " [enter]open URL "@,
{
    let mut s = prefixed(" ", applet_name);
    push_str(&mut s, ": ");
    push_str(&mut s, friend_name);
    push_str(&mut s, "  [esc]back [r]refresh");
    if crate::text::str_eq(key, "discord") {
        push_str(&mut s, " [c]compose");
    } else {
        proof {
            reveal_strlit("");
        }
        push_str(&mut s, "");
    }
    push_str(&mut s, " [enter]open URL ");
    s
}

/// The title of the compose screen for the friend named `friend_name`.
pub fn compose_title(friend_name: &str) -> (res: String)
    ensures
        res@ == " Send Message: "@ + friend_name@ + "  [enter]send [esc]back "@,
{
    let mut s = prefixed(" Send Message: ", friend_name);
    push_str(&mut s, "  [enter]send [esc]back ");
    s
}

/// The question asked before deleting the friend named `name` (or, with no
/// friend selected, "this friend").
pub fn delete_prompt(name: Option<&str>) -> (res: String)
    ensures
        res@ == "Delete "@ + match name {
            Some(n) => n@,
            None => "this friend"@,
        } + "?\n\n[y] yes    [n] no"@,
{
    let who = match name {
        Some(n) => n,
        None => "this friend",
    };
    let mut s = prefixed("Delete ", who);
    push_str(&mut s, "?\n\n[y] yes    [n] no");
    s
}

/// `s` cut to at most `max` bytes, ending in `…` when it was cut.
pub fn truncate(s: &str, max: usize) -> (res: String)
    requires
        can_truncate(s@, max as int),
    ensures
        res@ == truncated(s@, max as int),
{
    truncate_str(s, max)
}

/// The message the applet screen shows in place of the items: while
/// loading, on an error, before any fetch, and when there are no items.
pub open spec fn load_message(l: LoadView) -> Option<Seq<char>> {
    match l {
        LoadView::Loading => Some("Loading..."@),
        LoadView::Error(e) => Some("Error: "@ + e),
        LoadView::Idle => Some("Press [r] to fetch."@),
        LoadView::Loaded(items) => if items.len() == 0 {
            Some("No results found."@)
        } else {
            None
        },
    }
}

/// The message the applet screen shows for `data`, or none when it shows the items.
pub fn applet_message(data: &LoadState<Vec<AppletItem>>) -> (res: Option<String>)
    ensures
        match res {
            Some(m) => load_message(load_view(*data)) == Some(m@),
            None => load_message(load_view(*data)) is None,
        },
{
    match data {
        LoadState::Loading => Some("Loading...".to_string()),
        LoadState::Error(e) => Some(prefixed("Error: ", e.as_str())),
        LoadState::Idle => Some("Press [r] to fetch.".to_string()),
        LoadState::Loaded(items) => {
            if items.len() == 0 {
                Some("No results found.".to_string())
            } else {
                None
            }
        },
    }
}

/// The detail panel starts with the friend's name and a blank line, then
/// `email:  <email>` when the friend has an email, then `notes:  <notes>`
/// when the friend has notes.
pub proof fn lemma_detail_header(f: FriendView, kinds: Seq<crate::apps::AppletKind>)
    ensures
        detail_text(f, kinds).len() >= 2,
        detail_text(f, kinds)[0] == f.name,
        detail_text(f, kinds)[1] == Seq::<char>::empty(),
        f.email matches Some(e) ==> detail_text(f, kinds).len() >= 3 && detail_text(f, kinds)[2]
            == "email:  "@ + e,
        f.notes matches Some(n) ==> {
            let i = if f.email is Some {
                3int
            } else {
                2int
            };
            detail_text(f, kinds).len() > i && detail_text(f, kinds)[i] == "notes:  "@ + n
        },
{
}

proof fn lemma_field_lines_has(fields: Seq<FieldView>, p: Map<Seq<char>, Seq<char>>, j: int)
    requires
        0 <= j < fields.len(),
        p.contains_key(fields[j].key),
        p[fields[j].key].len() > 0,
    ensures
        field_lines(fields, p).contains("  "@ + fields[j].label + ": "@ + p[fields[j].key]),
    decreases fields.len(),
{
    let r = field_lines(fields.drop_last(), p);
    if j < fields.len() - 1 {
        assert(fields.drop_last()[j] == fields[j]);
        lemma_field_lines_has(fields.drop_last(), p, j);
        let line = "  "@ + fields[j].label + ": "@ + p[fields[j].key];
        let q = choose|q: int| 0 <= q < r.len() && r[q] == line;
        assert(field_lines(fields, p)[q] == line);
    } else {
        assert(fields.last() == fields[j]);
        assert(field_lines(fields, p)[r.len() as int] == "  "@ + fields[j].label + ": "@ + p[fields[j].key]);
    }
}

proof fn lemma_sections_has(kinds: Seq<crate::apps::AppletKind>, f: FriendView, i: int, line: Seq<char>)
    requires
        0 <= i < kinds.len(),
        !profile_of(f, kinds[i].key_spec()).dom().is_empty(),
        line == kinds[i].label_spec() || field_lines(
            kinds[i].fields_spec(),
            profile_of(f, kinds[i].key_spec()),
        ).contains(line),
    ensures
        applet_sections(kinds, f).contains(line),
    decreases kinds.len(),
{
    let k0 = kinds.drop_last();
    let r = applet_sections(k0, f);
    if i < kinds.len() - 1 {
        assert(k0[i] == kinds[i]);
        lemma_sections_has(k0, f, i, line);
        let q = choose|q: int| 0 <= q < r.len() && r[q] == line;
        assert(applet_sections(kinds, f)[q] == line);
    } else {
        let a = kinds.last();
        assert(a == kinds[i]);
        let blk = seq![Seq::<char>::empty(), a.label_spec()] + field_lines(
            a.fields_spec(),
            profile_of(f, a.key_spec()),
        );
        assert(applet_sections(kinds, f) == r + blk);
        if line == a.label_spec() {
            assert(applet_sections(kinds, f)[r.len() as int + 1] == line);
        } else {
            let fl = field_lines(a.fields_spec(), profile_of(f, a.key_spec()));
            let q = choose|q: int| 0 <= q < fl.len() && fl[q] == line;
            assert(applet_sections(kinds, f)[r.len() as int + 2 + q] == line);
        }
    }
}

/// For every applet of the registry that the friend has a profile for, the
/// detail panel shows the applet's name, and a line `  <label>: <value>`
/// for each of its fields that holds a non-empty value.
pub proof fn lemma_detail_shows_fields(
    f: FriendView,
    kinds: Seq<crate::apps::AppletKind>,
    i: int,
    j: int,
)
    requires
        0 <= i < kinds.len(),
        !profile_of(f, kinds[i].key_spec()).dom().is_empty(),
    ensures
        detail_text(f, kinds).contains(kinds[i].label_spec()),
        ({
            let p = profile_of(f, kinds[i].key_spec());
            let fd = kinds[i].fields_spec()[j];
            0 <= j < kinds[i].fields_spec().len() && p.contains_key(fd.key) && p[fd.key].len() > 0
                ==> detail_text(f, kinds).contains("  "@ + fd.label + ": "@ + p[fd.key])
        }),
{
    let sec = applet_sections(kinds, f);
    let n = detail_text(f, kinds).len() - sec.len();
    assert(detail_text(f, kinds).skip(n) =~= sec);
    lemma_sections_has(kinds, f, i, kinds[i].label_spec());
    let q = choose|q: int| 0 <= q < sec.len() && sec[q] == kinds[i].label_spec();
    assert(detail_text(f, kinds)[n + q] == kinds[i].label_spec());
    let p = profile_of(f, kinds[i].key_spec());
    let fs = kinds[i].fields_spec();
    if 0 <= j < fs.len() && p.contains_key(fs[j].key) && p[fs[j].key].len() > 0 {
        let line = "  "@ + fs[j].label + ": "@ + p[fs[j].key];
        lemma_field_lines_has(fs, p, j);
        lemma_sections_has(kinds, f, i, line);
        let q2 = choose|q2: int| 0 <= q2 < sec.len() && sec[q2] == line;
        assert(detail_text(f, kinds)[n + q2] == line);
    }
}

} // verus!
