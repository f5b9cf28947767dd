//! The book recommendations' logic: the search URLs for a reading profile,
//! merging the results without repeating a title, and the items shown.
use vstd::prelude::*;
use crate::apps::{AppletItem, ItemView, item_views};
use crate::data::friend::BookProfile;
use crate::text::{decimal, join_strings, join_with, list_sep, lowercase, push_decimal, push_str, to_lower, views};
use crate::web::{url_encode, url_encoded};

verus! {

/// A book found by a search.
#[derive(Debug, Clone)]
pub struct Book {
    pub title: String,
    pub authors: Vec<String>,
    pub first_publish_year: Option<i32>,
    pub key: String,
}

pub struct BookView {
    pub title: Seq<char>,
    pub authors: Seq<Seq<char>>,
    pub first_publish_year: Option<i32>,
    pub key: Seq<char>,
}

impl View for Book {
    type V = BookView;

    open spec fn view(&self) -> BookView {
        BookView {
            title: self.title@,
            authors: views(self.authors@),
            first_publish_year: self.first_publish_year,
            key: self.key@,
        }
    }
}

pub open spec fn book_views(v: Seq<Book>) -> Seq<BookView> {
    v.map_values(|b: Book| b@)
}

impl Book {
    /// A book with the same fields.
    pub fn copy(&self) -> (res: Book)
        ensures
            res@ == self@,
    {
        let n = self.authors.len();
        let mut authors: Vec<String> = Vec::new();
        let mut i: usize = 0;
        while i < n
            invariant
                n == self.authors.len(),
                i <= n,
                authors@.len() == i,
                views(authors@) == views(self.authors@).take(i as int),
            decreases n - i,
        {
            authors.push(self.authors[i].clone());
            assert(views(authors@) =~= views(self.authors@).take(i + 1));
            i = i + 1;
        }
        assert(views(self.authors@).take(n as int) =~= views(self.authors@));
        Book {
            title: self.title.clone(),
            authors,
            first_publish_year: self.first_publish_year,
            key: self.key.clone(),
        }
    }
}

pub open spec fn search_fields() -> Seq<char> {
    "&limit=10&fields=title,author_name,first_publish_year,key"@
}

/// The search for up to 10 books on subject `genre`.
pub open spec fn subject_url(genre: Seq<char>) -> Seq<char> {
    "https://openlibrary.org/search.json?subject="@ + url_encoded(genre) + search_fields()
}

/// The search for up to 10 books by `author`.
pub open spec fn author_url(author: Seq<char>) -> Seq<char> {
    "https://openlibrary.org/search.json?author="@ + url_encoded(author) + search_fields()
}

/// The searches for a reading profile: one per genre, then one per author.
pub fn book_search_urls(profile: &BookProfile) -> (res: Vec<String>)
    ensures
        views(res@) == profile@.genres.map_values(|g: Seq<char>| subject_url(g))
            + profile@.authors.map_values(|a: Seq<char>| author_url(a)),
{
    let mut out: Vec<String> = Vec::new();
    let ng = profile.genres.len();
    let mut i: usize = 0;
    while i < ng
        invariant
            ng == profile.genres.len(),
            i <= ng,
            out@.len() == i,
            views(out@) == profile@.genres.take(i as int).map_values(|g: Seq<char>| subject_url(g)),
        decreases ng - i,
    {
        let mut u = "https://openlibrary.org/search.json?subject=".to_string();
        push_str(&mut u, url_encode(profile.genres[i].as_str()).as_str());
        push_str(&mut u, "&limit=10&fields=title,author_name,first_publish_year,key");
        let ghost before = out@;
        out.push(u);
        proof {
            assert(profile@.genres[i as int] == profile.genres@[i as int]@);
            crate::text::lemma_map_prefix_push(
                views(before),
                profile@.genres,
                |g: Seq<char>| subject_url(g),
                i as int,
                u@,
            );
            assert(views(out@) =~= views(before).push(u@));
        }
        i = i + 1;
    }
    assert(profile@.genres.take(ng as int) =~= profile@.genres);
    let na = profile.authors.len();
    let mut j: usize = 0;
    while j < na
        invariant
            na == profile.authors.len(),
            ng == profile.genres.len(),
            j <= na,
            out@.len() == ng + j,
            views(out@) == profile@.genres.map_values(|g: Seq<char>| subject_url(g))
                + profile@.authors.take(j as int).map_values(|a: Seq<char>| author_url(a)),
        decreases na - j,
    {
        let mut u = "https://openlibrary.org/search.json?author=".to_string();
        push_str(&mut u, url_encode(profile.authors[j].as_str()).as_str());
        push_str(&mut u, "&limit=10&fields=title,author_name,first_publish_year,key");
        let ghost before = out@;
        out.push(u);
        proof {
            let gs = profile@.genres.map_values(|g: Seq<char>| subject_url(g));
            let prev = profile@.authors.take(j as int).map_values(|a: Seq<char>| author_url(a));
            assert(profile@.authors[j as int] == profile.authors@[j as int]@);
            crate::text::lemma_map_prefix_push(
                prev,
                profile@.authors,
                |a: Seq<char>| author_url(a),
                j as int,
                u@,
            );
            assert(views(out@) =~= views(before).push(u@));
            assert(views(before) =~= gs + prev);
            assert(gs + prev.push(u@) =~= (gs + prev).push(u@));
        }
        j = j + 1;
    }
    assert(profile@.authors.take(na as int) =~= profile@.authors);
    out
}

/// All lists, one after the other.
pub open spec fn concat_all(s: Seq<Seq<BookView>>) -> Seq<BookView>
    decreases s.len(),
{
    if s.len() == 0 {
        Seq::empty()
    } else {
        concat_all(s.drop_last()) + s.last()
    }
}

/// The books without those whose title equals (ignoring case) the title of
/// the book kept just before them (`Vec::dedup_by`).
pub open spec fn dedup_titles(s: Seq<BookView>) -> Seq<BookView>
    decreases s.len(),
{
    if s.len() == 0 {
        Seq::empty()
    } else {
        let k = dedup_titles(s.drop_last());
        if k.len() > 0 && lowercase(k.last().title) == lowercase(s.last().title) {
            k
        } else {
            k.push(s.last())
        }
    }
}

pub open spec fn result_views(r: Seq<Vec<Book>>) -> Seq<Seq<BookView>> {
    r.map_values(|v: Vec<Book>| book_views(v@))
}

/// The books of all searches, in order, without consecutive repeats of a title.
pub fn merge_books(results: &Vec<Vec<Book>>) -> (res: Vec<Book>)
    ensures
        book_views(res@) == dedup_titles(concat_all(result_views(results@))),
{
    let mut all: Vec<Book> = Vec::new();
    let n = results.len();
    let mut i: usize = 0;
    assert(result_views(results@).take(0) =~= Seq::<Seq<BookView>>::empty());
    while i < n
        invariant
            n == results.len(),
            i <= n,
            book_views(all@) == concat_all(result_views(results@).take(i as int)),
        decreases n - i,
    {
        let ghost done = book_views(all@);
        let list = &results[i];
        let m = list.len();
        let mut j: usize = 0;
        assert(done + book_views(list@).take(0) =~= done);
        while j < m
            invariant
                n == results.len(),
                i < n,
                m == list.len(),
                list == results@[i as int],
                j <= m,
                book_views(all@) == done + book_views(list@).take(j as int),
            decreases m - j,
        {
            let c = list[j].copy();
            let ghost before = all@;
            all.push(c);
            assert(book_views(all@) =~= book_views(before).push(list@[j as int]@));
            assert(book_views(list@).take(j + 1) =~= book_views(list@).take(j as int).push(
                list@[j as int]@,
            ));
            assert(book_views(all@) =~= done + book_views(list@).take(j + 1));
            j = j + 1;
        }
        proof {
            assert(book_views(list@).take(m as int) =~= book_views(list@));
            let rv = result_views(results@);
            assert(rv.take(i + 1).drop_last() =~= rv.take(i as int));
            assert(rv.take(i + 1).last() == book_views(list@));
        }
        i = i + 1;
    }
    assert(result_views(results@).take(n as int) =~= result_views(results@));
    let ghost bs = book_views(all@);
    let mut keys: Vec<String> = Vec::new();
    let total = all.len();
    let mut k: usize = 0;
    while k < total
        invariant
            total == all.len(),
            bs == book_views(all@),
            k <= total,
            views(keys@) == title_keys(bs.take(k as int)),
        decreases total - k,
    {
        let l = to_lower(all[k].title.as_str());
        let ghost before = keys@;
        assert(bs[k as int].title == all@[k as int].title@);
        keys.push(l);
        assert(views(keys@) =~= views(before).push(lowercase(bs[k as int].title)));
        assert(title_keys(bs.take(k + 1)) =~= title_keys(bs.take(k as int)).push(
            lowercase(bs[k as int].title),
        ));
        k = k + 1;
    }
    assert(bs.take(total as int) =~= bs);
    proof {
        lemma_dedup_titles_keyed(bs);
    }
    dedup_by_keys(&all, &keys)
}

/// Each book paired with the key it is compared by.
pub open spec fn keyed(books: Seq<BookView>, keys: Seq<Seq<char>>) -> Seq<(BookView, Seq<char>)> {
    Seq::new(books.len(), |i: int| (books[i], keys[i]))
}

/// The pairs without those whose key equals the key of the pair kept just before them.
pub open spec fn dedup_keyed(s: Seq<(BookView, Seq<char>)>) -> Seq<(BookView, Seq<char>)>
    decreases s.len(),
{
    if s.len() == 0 {
        Seq::empty()
    } else {
        let k = dedup_keyed(s.drop_last());
        if k.len() > 0 && k.last().1 == s.last().1 {
            k
        } else {
            k.push(s.last())
        }
    }
}

pub open spec fn first_of(e: (BookView, Seq<char>)) -> BookView {
    e.0
}

/// The lower-cased titles of the books.
pub open spec fn title_keys(s: Seq<BookView>) -> Seq<Seq<char>> {
    s.map_values(|b: BookView| lowercase(b.title))
}

proof fn lemma_dedup_titles_keyed(s: Seq<BookView>)
    ensures
        dedup_titles(s) == dedup_keyed(keyed(s, title_keys(s))).map_values(
            |e: (BookView, Seq<char>)| first_of(e),
        ),
        forall|i: int|
            0 <= i < dedup_keyed(keyed(s, title_keys(s))).len() ==> (#[trigger] dedup_keyed(
                keyed(s, title_keys(s)),
            )[i]).1 == lowercase(dedup_keyed(keyed(s, title_keys(s)))[i].0.title),
    decreases s.len(),
{
    let g = |e: (BookView, Seq<char>)| first_of(e);
    let ks = keyed(s, title_keys(s));
    if s.len() > 0 {
        let s0 = s.drop_last();
        lemma_dedup_titles_keyed(s0);
        let ks0 = keyed(s0, title_keys(s0));
        assert(ks.drop_last() =~= ks0);
        assert(ks.last() == (s.last(), lowercase(s.last().title)));
        let k = dedup_keyed(ks0);
        let d = dedup_keyed(ks);
        if k.len() > 0 {
            assert(k.last() == k[k.len() - 1]);
            assert(k.map_values(g).last() == k.last().0);
        }
        assert(d.map_values(g) =~= dedup_titles(s)) by {
            if k.len() > 0 && k.last().1 == ks.last().1 {
            } else {
                assert(k.push(ks.last()).map_values(g) =~= k.map_values(g).push(s.last()));
            }
        }
        assert forall|i: int| 0 <= i < d.len() implies (#[trigger] d[i]).1 == lowercase(
            d[i].0.title,
        ) by {
            if i < k.len() {
                assert(d[i] == k[i]);
            }
        }
    } else {
        assert(dedup_keyed(ks).map_values(g) =~= dedup_titles(s));
    }
}

/// The books without those whose key equals the key of the book kept just
/// before them; `keys[i]` is the key of `books[i]`.
pub fn dedup_by_keys(books: &Vec<Book>, keys: &Vec<String>) -> (res: Vec<Book>)
    requires
        books.len() == keys.len(),
    ensures
        book_views(res@) == dedup_keyed(keyed(book_views(books@), views(keys@))).map_values(
            |e: (BookView, Seq<char>)| first_of(e),
        ),
{
    let ghost ks = keyed(book_views(books@), views(keys@));
    let mut out: Vec<Book> = Vec::new();
    let mut last_key: Option<String> = None;
    let n = books.len();
    let mut i: usize = 0;
    assert(ks.take(0) =~= Seq::<(BookView, Seq<char>)>::empty());
    while i < n
        invariant
            n == books.len(),
            n == keys.len(),
            ks == keyed(book_views(books@), views(keys@)),
            i <= n,
            book_views(out@) == dedup_keyed(ks.take(i as int)).map_values(
                |e: (BookView, Seq<char>)| first_of(e),
            ),
            match last_key {
                Some(l) => dedup_keyed(ks.take(i as int)).len() > 0 && l@ == dedup_keyed(
                    ks.take(i as int),
                ).last().1,
                None => dedup_keyed(ks.take(i as int)).len() == 0,
            },
        decreases n - i,
    {
        let ghost prev = dedup_keyed(ks.take(i as int));
        assert(ks.take(i + 1).drop_last() =~= ks.take(i as int));
        assert(ks.take(i + 1).last() == (books@[i as int]@, keys@[i as int]@));
        let repeat = match &last_key {
            Some(l) => *l == keys[i],
            None => false,
        };
        if !repeat {
            let c = books[i].copy();
            let ghost before = out@;
            out.push(c);
            assert(prev.push(ks.take(i + 1).last()).map_values(|e: (BookView, Seq<char>)| first_of(e))
                =~= prev.map_values(|e: (BookView, Seq<char>)| first_of(e)).push(books@[i as int]@));
            assert(book_views(out@) =~= book_views(before).push(books@[i as int]@));
            last_key = Some(keys[i].clone());
        }
        i = i + 1;
    }
    assert(ks.take(n as int) =~= ks);
    out
}

/// The item shown for a book: title, authors and first publication year, and
/// its Open Library page.
pub open spec fn book_item(b: BookView) -> ItemView {
    ItemView {
        title: b.title,
        subtitle: Some(
            join_with(b.authors, list_sep()) + match b.first_publish_year {
                Some(y) => " ("@ + decimal(y as int) + ")"@,
                None => Seq::empty(),
            },
        ),
        url: Some("https://openlibrary.org"@ + b.key),
    }
}

/// The items shown for the books, in order.
pub fn book_items(books: &Vec<Book>) -> (res: Vec<AppletItem>)
    ensures
        item_views(res@) == book_views(books@).map_values(|b: BookView| book_item(b)),
{
    let n = books.len();
    let mut out: Vec<AppletItem> = Vec::new();
    let mut i: usize = 0;
    while i < n
        invariant
            n == books.len(),
            i <= n,
            out@.len() == i,
            item_views(out@) == book_views(books@).take(i as int).map_values(|b: BookView| book_item(b)),
        decreases n - i,
    {
        let b = &books[i];
        let mut sub = join_strings(&b.authors, ", ");
        match b.first_publish_year {
            Some(y) => {
                push_str(&mut sub, " (");
                push_decimal(&mut sub, y as i64);
                push_str(&mut sub, ")");
            },
            None => {},
        }
        let mut url = "https://openlibrary.org".to_string();
        push_str(&mut url, b.key.as_str());
        let item = AppletItem { title: b.title.clone(), subtitle: Some(sub), url: Some(url) };
        proof {
            match b.first_publish_year {
                Some(y) => {
                    assert(sub@ =~= join_with(b@.authors, list_sep()) + (" ("@ + decimal(y as int)
                        + ")"@));
                },
                None => {
                    assert(sub@ =~= join_with(b@.authors, list_sep()) + Seq::<char>::empty());
                },
            }
        }
        assert(item@ == book_item(books@[i as int]@));
        let ghost before = out@;
        out.push(item);
        proof {
            let lhs = item_views(out@);
            let rhs = book_views(books@).take(i + 1).map_values(|b: BookView| book_item(b));
            let prev = book_views(books@).take(i as int).map_values(|b: BookView| book_item(b));
            assert forall|q: int| 0 <= q < i + 1 implies lhs[q] == rhs[q] by {
                if q < i {
                    assert(lhs[q] == item_views(before)[q]);
                    assert(item_views(before)[q] == prev[q]);
                }
            }
            assert(lhs =~= rhs);
        }
        i = i + 1;
    }
    assert(book_views(books@).take(n as int) =~= book_views(books@));
    out
}

/// After merging, no book has the same title (ignoring case) as the book
/// right before it, and every book kept is one of the books merged.
pub proof fn lemma_dedup_titles(s: Seq<BookView>)
    ensures
        forall|i: int|
            0 <= i < dedup_titles(s).len() - 1 ==> lowercase(#[trigger] dedup_titles(s)[i].title)
                != lowercase(dedup_titles(s)[i + 1].title),
        forall|i: int| 0 <= i < dedup_titles(s).len() ==> s.contains(#[trigger] dedup_titles(s)[i]),
        dedup_titles(s).len() <= s.len(),
    decreases s.len(),
{
    if s.len() > 0 {
        let s0 = s.drop_last();
        lemma_dedup_titles(s0);
        let k = dedup_titles(s0);
        let d = dedup_titles(s);
        assert forall|i: int| 0 <= i < d.len() implies s.contains(#[trigger] d[i]) by {
            if i < k.len() {
                assert(d[i] == k[i]);
                let j = choose|j: int| 0 <= j < s0.len() && s0[j] == k[i];
                assert(s[j] == s0[j]);
            } else {
                assert(d[i] == s.last());
                assert(s[s.len() - 1] == s.last());
            }
        }
        assert forall|i: int| 0 <= i < d.len() - 1 implies lowercase(#[trigger] d[i].title)
            != lowercase(d[i + 1].title) by {
            if i + 1 < k.len() {
                assert(d[i] == k[i]);
                assert(d[i + 1] == k[i + 1]);
            } else {
                assert(d[i] == k.last());
                assert(d[i + 1] == s.last());
            }
        }
    }
}

} // verus!
