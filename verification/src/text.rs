//! Character-level string handling: whitespace trimming, comma-separated
//! lists, joining, decimal rendering and byte-bounded truncation.
use vstd::prelude::*;
use vstd::string::StringExecFns;
use vstd::string::StringSliceAdditionalSpecFns;

verus! {

/// The Unicode `White_Space` characters, which is what `char::is_whitespace`
/// (and so `str::trim`) treats as whitespace.
pub open spec fn is_ws(c: char) -> bool {
    let u = c as u32;
    ||| 9 <= u <= 13
    ||| u == 32
    ||| u == 0x85
    ||| u == 0xA0
    ||| u == 0x1680
    ||| 0x2000 <= u <= 0x200A
    ||| u == 0x2028
    ||| u == 0x2029
    ||| u == 0x202F
    ||| u == 0x205F
    ||| u == 0x3000
}

pub open spec fn trim_start(s: Seq<char>) -> Seq<char>
    decreases s.len(),
{
    if s.len() > 0 && is_ws(s[0]) {
        trim_start(s.drop_first())
    } else {
        s
    }
}

pub open spec fn trim_end(s: Seq<char>) -> Seq<char>
    decreases s.len(),
{
    if s.len() > 0 && is_ws(s.last()) {
        trim_end(s.drop_last())
    } else {
        s
    }
}

/// `s` without leading and trailing whitespace.
pub open spec fn trim(s: Seq<char>) -> Seq<char> {
    trim_end(trim_start(s))
}

/// A string that trimming leaves unchanged.
pub open spec fn is_trimmed(s: Seq<char>) -> bool {
    trim(s) == s
}

/// The pieces of `s` between occurrences of `sep` (`str::split`).
pub open spec fn split_on(s: Seq<char>, sep: char) -> Seq<Seq<char>>
    decreases s.len(),
{
    if s.len() == 0 {
        seq![Seq::<char>::empty()]
    } else {
        let r = split_on(s.drop_last(), sep);
        if s.last() == sep {
            r.push(Seq::<char>::empty())
        } else {
            r.update(r.len() - 1, r.last().push(s.last()))
        }
    }
}

/// Trims every piece and keeps the pieces that are not empty afterwards.
pub open spec fn keep_trimmed(parts: Seq<Seq<char>>) -> Seq<Seq<char>>
    decreases parts.len(),
{
    if parts.len() == 0 {
        Seq::empty()
    } else {
        let r = keep_trimmed(parts.drop_last());
        let t = trim(parts.last());
        if t.len() > 0 {
            r.push(t)
        } else {
            r
        }
    }
}

/// The items of a comma-separated list: split on `,`, trimmed, empty ones dropped.
pub open spec fn csv_items(s: Seq<char>) -> Seq<Seq<char>> {
    keep_trimmed(split_on(s, ','))
}

/// The items joined with `sep` between consecutive ones (`[String]::join`).
pub open spec fn join_with(items: Seq<Seq<char>>, sep: Seq<char>) -> Seq<char>
    decreases items.len(),
{
    if items.len() == 0 {
        Seq::empty()
    } else if items.len() == 1 {
        items[0]
    } else {
        join_with(items.drop_last(), sep) + sep + items.last()
    }
}

/// The separator that lists are shown with.
pub open spec fn list_sep() -> Seq<char> {
    ", "@
}

/// An item that survives being written into a comma-separated list and read back.
pub open spec fn is_list_item(s: Seq<char>) -> bool {
    &&& s.len() > 0
    &&& is_trimmed(s)
    &&& !s.contains(',')
}

/// The views of a sequence of strings.
pub open spec fn views(v: Seq<String>) -> Seq<Seq<char>> {
    v.map_values(|s: String| s@)
}

pub open spec fn digit_char(d: int) -> char {
    if d == 0 {
        '0'
    } else if d == 1 {
        '1'
    } else if d == 2 {
        '2'
    } else if d == 3 {
        '3'
    } else if d == 4 {
        '4'
    } else if d == 5 {
        '5'
    } else if d == 6 {
        '6'
    } else if d == 7 {
        '7'
    } else if d == 8 {
        '8'
    } else {
        '9'
    }
}

/// The decimal digits of `n`.
pub open spec fn digits(n: nat) -> Seq<char>
    decreases n,
{
    if n < 10 {
        seq![digit_char(n as int)]
    } else {
        digits(n / 10).push(digit_char((n % 10) as int))
    }
}

/// The decimal rendering of `i`, with a leading `-` when negative.
pub open spec fn decimal(i: int) -> Seq<char> {
    if i < 0 {
        seq!['-'] + digits((-i) as nat)
    } else {
        digits(i as nat)
    }
}

/// Appends one character to a string.
#[verifier::external_body]
pub(crate) fn push_char(s: &mut String, c: char)
    ensures
        final(s)@ == old(s)@.push(c),
{
    s.push(c);
}

/// Appends a string slice to a string.
pub fn push_str(s: &mut String, t: &str)
    ensures
        final(s)@ == old(s)@ + t@,
{
    s.append(t);
}

/// The characters of `s`.
pub fn chars_of(s: &str) -> (res: Vec<char>)
    ensures
        res@ == s@,
{
    let mut v: Vec<char> = Vec::new();
    for c in it: s.chars()
        invariant
            v@ == it.seq().take(it.index() as int),
    {
        v.push(c);
    }
    v
}

/// The string made of `v[lo..hi]`.
pub fn string_of(v: &Vec<char>, lo: usize, hi: usize) -> (res: String)
    requires
        lo <= hi <= v.len(),
    ensures
        res@ == v@.subrange(lo as int, hi as int),
{
    let mut s = String::new();
    let mut i = lo;
    while i < hi
        invariant
            lo <= i <= hi <= v.len(),
            s@ == v@.subrange(lo as int, i as int),
        decreases hi - i,
    {
        push_char(&mut s, v[i]);
        assert(v@.subrange(lo as int, i + 1) == v@.subrange(lo as int, i as int).push(v@[i as int]));
        i = i + 1;
    }
    s
}

/// Whether two string slices hold the same characters.
pub fn str_eq(a: &str, b: &str) -> (res: bool)
    ensures
        res == (a@ == b@),
{
    let x = chars_of(a);
    let y = chars_of(b);
    if x.len() != y.len() {
        return false;
    }
    let mut i: usize = 0;
    while i < x.len()
        invariant
            x@ == a@,
            y@ == b@,
            x.len() == y.len(),
            i <= x.len(),
            forall|j: int| 0 <= j < i ==> x@[j] == y@[j],
        decreases x.len() - i,
    {
        if x[i] != y[i] {
            return false;
        }
        i = i + 1;
    }
    assert(x@ =~= y@);
    true
}

/// Whether `c` is whitespace (`char::is_whitespace`).
pub fn is_whitespace(c: char) -> (res: bool)
    ensures
        res == is_ws(c),
{
    let u = c as u32;
    (9 <= u && u <= 13) || u == 32 || u == 0x85 || u == 0xA0 || u == 0x1680 || (0x2000 <= u && u
        <= 0x200A) || u == 0x2028 || u == 0x2029 || u == 0x202F || u == 0x205F || u == 0x3000
}

proof fn lemma_trim_start_step(s: Seq<char>, i: int)
    requires
        0 <= i < s.len(),
        is_ws(s[i]),
    ensures
        trim_start(s.skip(i)) == trim_start(s.skip(i + 1)),
{
    assert(s.skip(i).drop_first() =~= s.skip(i + 1));
}

proof fn lemma_trim_end_step(s: Seq<char>, j: int)
    requires
        0 < j <= s.len(),
        is_ws(s[j - 1]),
    ensures
        trim_end(s.take(j)) == trim_end(s.take(j - 1)),
{
    assert(s.take(j).drop_last() =~= s.take(j - 1));
}

/// `v[lo..hi]` is the trimmed form of `v` exactly when it is.
pub fn trim_bounds(v: &Vec<char>) -> (res: (usize, usize))
    ensures
        res.0 <= res.1 <= v.len(),
        v@.subrange(res.0 as int, res.1 as int) == trim(v@),
{
    let n = v.len();
    let mut i: usize = 0;
    assert(v@.skip(0) =~= v@);
    while i < n && is_whitespace(v[i])
        invariant
            n == v.len(),
            i <= n,
            trim_start(v@) == trim_start(v@.skip(i as int)),
        decreases n - i,
    {
        proof {
            lemma_trim_start_step(v@, i as int);
        }
        i = i + 1;
    }
    let ghost rest = v@.skip(i as int);
    assert(trim_start(rest) == rest);
    let mut j: usize = n;
    assert(rest.take(rest.len() as int) =~= rest);
    while j > i && is_whitespace(v[j - 1])
        invariant
            n == v.len(),
            i <= j <= n,
            rest == v@.skip(i as int),
            trim_end(rest) == trim_end(rest.take(j - i)),
        decreases j,
    {
        proof {
            assert(rest[j - i - 1] == v@[j - 1]);
            lemma_trim_end_step(rest, j - i);
        }
        j = j - 1;
    }
    assert(trim_end(rest.take(j - i)) == rest.take(j - i));
    assert(rest.take(j - i) =~= v@.subrange(i as int, j as int));
    (i, j)
}

/// `s` without leading and trailing whitespace (`str::trim`).
pub fn trimmed(s: &str) -> (res: String)
    ensures
        res@ == trim(s@),
{
    let v = chars_of(s);
    let (lo, hi) = trim_bounds(&v);
    string_of(&v, lo, hi)
}

proof fn lemma_split_on_nonempty(s: Seq<char>, sep: char)
    ensures
        split_on(s, sep).len() >= 1,
    decreases s.len(),
{
    if s.len() > 0 {
        lemma_split_on_nonempty(s.drop_last(), sep);
    }
}

/// The items of a comma-separated list (`s.split(',')`, trimmed, empty items dropped).
pub fn parse_csv(s: &str) -> (res: Vec<String>)
    ensures
        views(res@) == csv_items(s@),
{
    let v = chars_of(s);
    let n = v.len();
    let mut res: Vec<String> = Vec::new();
    let mut start: usize = 0;
    let mut i: usize = 0;
    let ghost mut done: Seq<Seq<char>> = Seq::empty();
    assert(v@.take(0) =~= Seq::<char>::empty());
    assert(v@.subrange(0, 0) =~= Seq::<char>::empty());
    while i < n
        invariant
            n == v.len(),
            v@ == s@,
            start <= i <= n,
            split_on(v@.take(i as int), ',') == done.push(v@.subrange(start as int, i as int)),
            views(res@) == keep_trimmed(done),
        decreases n - i,
    {
        let ghost cur = v@.subrange(start as int, i as int);
        assert(v@.take(i + 1).drop_last() =~= v@.take(i as int));
        if v[i] == ',' {
            let (lo, hi) = trim_bounds_sub(&v, start, i);
            if lo < hi {
                let t = string_of(&v, lo, hi);
                res.push(t);
            }
            proof {
                assert(done.push(cur).drop_last() =~= done);
                assert(views(res@) =~= keep_trimmed(done.push(cur)));
                done = done.push(cur);
                assert(v@.subrange(i + 1, i + 1) =~= Seq::<char>::empty());
            }
            start = i + 1;
        } else {
            proof {
                assert(v@.subrange(start as int, i + 1) =~= cur.push(v@[i as int]));
                assert(done.push(cur).update(done.len() as int, cur.push(v@[i as int])) =~= done.push(
                    cur.push(v@[i as int]),
                ));
            }
        }
        i = i + 1;
    }
    let ghost cur = v@.subrange(start as int, n as int);
    let (lo, hi) = trim_bounds_sub(&v, start, n);
    if lo < hi {
        let t = string_of(&v, lo, hi);
        res.push(t);
    }
    proof {
        assert(v@.take(n as int) =~= v@);
        assert(done.push(cur).drop_last() =~= done);
        assert(views(res@) =~= keep_trimmed(done.push(cur)));
    }
    res
}

/// Bounds of the trimmed form of `v[start..end]`.
fn trim_bounds_sub(v: &Vec<char>, start: usize, end: usize) -> (res: (usize, usize))
    requires
        start <= end <= v.len(),
    ensures
        start <= res.0 <= res.1 <= end,
        v@.subrange(res.0 as int, res.1 as int) == trim(v@.subrange(start as int, end as int)),
{
    let mut w: Vec<char> = Vec::new();
    let mut k = start;
    while k < end
        invariant
            start <= k <= end <= v.len(),
            w@ == v@.subrange(start as int, k as int),
        decreases end - k,
    {
        w.push(v[k]);
        assert(v@.subrange(start as int, k + 1) == v@.subrange(start as int, k as int).push(
            v@[k as int],
        ));
        k = k + 1;
    }
    let (lo, hi) = trim_bounds(&w);
    assert(w@.subrange(lo as int, hi as int) =~= v@.subrange(start + lo, start + hi));
    (start + lo, start + hi)
}

/// The strings joined with `sep` (`[String]::join`).
pub fn join_strings(items: &Vec<String>, sep: &str) -> (res: String)
    ensures
        res@ == join_with(views(items@), sep@),
{
    let mut res = String::new();
    let n = items.len();
    let mut i: usize = 0;
    while i < n
        invariant
            n == items.len(),
            i <= n,
            res@ == join_with(views(items@).take(i as int), sep@),
        decreases n - i,
    {
        let ghost prev = views(items@).take(i as int);
        assert(views(items@).take(i + 1).drop_last() =~= prev);
        if i > 0 {
            push_str(&mut res, sep);
        }
        push_str(&mut res, items[i].as_str());
        proof {
            if i == 0 {
                assert(res@ =~= join_with(views(items@).take(i + 1), sep@));
            }
        }
        i = i + 1;
    }
    assert(views(items@).take(n as int) =~= views(items@));
    res
}

/// Appends the decimal digits of `n`.
fn push_digits(out: &mut String, n: u64)
    ensures
        final(out)@ == old(out)@ + digits(n as nat),
    decreases n,
{
    if n >= 10 {
        push_digits(out, n / 10);
    }
    let d = n % 10;
    let c = if d == 0 {
        '0'
    } else if d == 1 {
        '1'
    } else if d == 2 {
        '2'
    } else if d == 3 {
        '3'
    } else if d == 4 {
        '4'
    } else if d == 5 {
        '5'
    } else if d == 6 {
        '6'
    } else if d == 7 {
        '7'
    } else if d == 8 {
        '8'
    } else {
        '9'
    };
    push_char(out, c);
    assert(final(out)@ =~= old(out)@ + digits(n as nat));
}

/// Appends the decimal rendering of `i` (as `format!("{i}")` writes it).
pub fn push_decimal(out: &mut String, i: i64)
    ensures
        final(out)@ == old(out)@ + decimal(i as int),
{
    if i < 0 {
        push_char(out, '-');
        let m: u64 = if i == i64::MIN {
            9223372036854775808u64
        } else {
            (-i) as u64
        };
        push_digits(out, m);
        assert(final(out)@ =~= old(out)@ + decimal(i as int));
    } else {
        push_digits(out, i as u64);
    }
}


/// What `str::to_lowercase` gives for `s` (Unicode lower-casing, which
/// depends on context for some characters).
pub uninterp spec fn lowercase(s: Seq<char>) -> Seq<char>;

/// `str::to_lowercase`; claimed to give the named lower-casing of `s`.
#[verifier::external_body]
pub(crate) fn to_lower(s: &str) -> (res: String)
    ensures
        res@ == lowercase(s@),
{
    s.to_lowercase()
}

/// `pat` occurs in `text` as a contiguous run (`str::contains`).
pub open spec fn occurs_in(pat: Seq<char>, text: Seq<char>) -> bool {
    exists|i: int| 0 <= i <= text.len() - pat.len() && #[trigger] text.subrange(i, i + pat.len()) == pat
}

/// Whether `pat` occurs in `text`.
pub fn contains_str(text: &str, pat: &str) -> (res: bool)
    ensures
        res == occurs_in(pat@, text@),
{
    let t = chars_of(text);
    let p = chars_of(pat);
    if p.len() > t.len() {
        return false;
    }
    let last = t.len() - p.len();
    let mut i: usize = 0;
    while i <= last
        invariant
            t@ == text@,
            p@ == pat@,
            last == t.len() - p.len(),
            i <= last + 1,
            forall|k: int| 0 <= k < i ==> #[trigger] t@.subrange(k, k + p.len()) != p@,
        decreases last + 1 - i,
    {
        let mut j: usize = 0;
        let mut same = true;
        while j < p.len()
            invariant
                t@ == text@,
                p@ == pat@,
                i <= last,
                last == t.len() - p.len(),
                j <= p.len(),
                same == forall|q: int| 0 <= q < j ==> t@[i + q] == p@[q],
            decreases p.len() - j,
        {
            if t[i + j] != p[j] {
                same = false;
            }
            j = j + 1;
        }
        if same {
            assert(t@.subrange(i as int, i + p.len()) =~= p@);
            return true;
        }
        proof {
            if t@.subrange(i as int, i + p.len()) == p@ {
                assert forall|q: int| 0 <= q < p.len() implies t@[i + q] == p@[q] by {
                    assert(t@.subrange(i as int, i + p.len())[q] == t@[i + q]);
                }
            }
        }
        i = i + 1;
    }
    proof {
        assert forall|k: int| 0 <= k <= t@.len() - p@.len() implies #[trigger] t@.subrange(k, k + p@.len())
            != p@ by {}
    }
    false
}


/// Extending the image of a prefix by the image of the next element.
pub(crate) proof fn lemma_map_prefix_push<A, B>(out: Seq<B>, src: Seq<A>, f: spec_fn(A) -> B, i: int, x: B)
    requires
        0 <= i < src.len(),
        out == src.take(i).map_values(f),
        x == f(src[i]),
    ensures
        out.push(x) == src.take(i + 1).map_values(f),
{
    assert(out.push(x) =~= src.take(i + 1).map_values(f));
}


proof fn lemma_trim_start_skip(s: Seq<char>)
    ensures
        exists|j: int| 0 <= j <= s.len() && #[trigger] s.skip(j) == trim_start(s),
        trim_start(s).len() <= s.len(),
        trim_start(s).len() == s.len() ==> trim_start(s) == s,
    decreases s.len(),
{
    if s.len() > 0 && is_ws(s[0]) {
        lemma_trim_start_skip(s.drop_first());
        let j = choose|j: int| 0 <= j <= s.drop_first().len() && #[trigger] s.drop_first().skip(j) == trim_start(s.drop_first());
        assert(s.skip(j + 1) =~= s.drop_first().skip(j));
    } else {
        assert(s.skip(0) =~= s);
    }
}

proof fn lemma_trim_end_len(s: Seq<char>)
    ensures
        trim_end(s).len() <= s.len(),
        trim_end(s).len() == s.len() ==> trim_end(s) == s,
    decreases s.len(),
{
    if s.len() > 0 && is_ws(s.last()) {
        lemma_trim_end_len(s.drop_last());
    }
}

/// A non-empty trimmed string starts and ends with a character that is not whitespace.
pub(crate) proof fn lemma_trimmed_ends(x: Seq<char>)
    requires
        x.len() > 0,
        is_trimmed(x),
    ensures
        !is_ws(x[0]),
        !is_ws(x.last()),
        trim_start(x) == x,
        trim_end(x) == x,
{
    lemma_trim_start_skip(x);
    lemma_trim_end_len(trim_start(x));
    assert(trim_start(x) == x);
    if is_ws(x[0]) {
        lemma_trim_start_skip(x.drop_first());
        assert(false);
    }
    if is_ws(x.last()) {
        lemma_trim_end_len(x.drop_last());
        assert(false);
    }
}

/// A string that starts and ends with a character that is not whitespace is trimmed.
pub(crate) proof fn lemma_ends_trimmed(x: Seq<char>)
    requires
        x.len() > 0,
        !is_ws(x[0]),
        !is_ws(x.last()),
    ensures
        is_trimmed(x),
{
}

/// Trimming twice trims no more than trimming once.
pub proof fn lemma_trim_idempotent(s: Seq<char>)
    ensures
        trim(trim(s)) == trim(s),
{
    let t = trim(s);
    if t.len() > 0 {
        lemma_trim_start_nonws(s);
        lemma_trim_end_nonws(trim_start(s));
        if trim_start(s).len() > 0 {
            lemma_trim_end_keeps_first(trim_start(s));
        }
        lemma_ends_trimmed(t);
    }
}

proof fn lemma_trim_start_nonws(s: Seq<char>)
    ensures
        trim_start(s).len() > 0 ==> !is_ws(trim_start(s)[0]),
    decreases s.len(),
{
    if s.len() > 0 && is_ws(s[0]) {
        lemma_trim_start_nonws(s.drop_first());
    }
}

proof fn lemma_trim_end_nonws(s: Seq<char>)
    ensures
        trim_end(s).len() > 0 ==> !is_ws(trim_end(s).last()),
    decreases s.len(),
{
    if s.len() > 0 && is_ws(s.last()) {
        lemma_trim_end_nonws(s.drop_last());
    }
}

proof fn lemma_trim_end_keeps_first(s: Seq<char>)
    requires
        s.len() > 0,
    ensures
        trim_end(s).len() > 0 ==> trim_end(s)[0] == s[0],
    decreases s.len(),
{
    if s.len() > 0 && is_ws(s.last()) {
        if s.drop_last().len() > 0 {
            assert(s.drop_last()[0] == s[0]);
            lemma_trim_end_keeps_first(s.drop_last());
        } else {
            assert(trim_end(s.drop_last()).len() == 0);
        }
    }
}

/// Splitting after appending a piece without separators extends the last piece.
proof fn lemma_split_append_plain(a: Seq<char>, b: Seq<char>, sep: char)
    requires
        !b.contains(sep),
    ensures
        split_on(a + b, sep) == split_on(a, sep).update(
            split_on(a, sep).len() - 1,
            split_on(a, sep).last() + b,
        ),
        split_on(a + b, sep).len() == split_on(a, sep).len(),
    decreases b.len(),
{
    lemma_split_on_nonempty(a, sep);
    if b.len() == 0 {
        assert(a + b =~= a);
        assert(split_on(a, sep).last() + b =~= split_on(a, sep).last());
        assert(split_on(a, sep).update(split_on(a, sep).len() - 1, split_on(a, sep).last())
            =~= split_on(a, sep));
    } else {
        let b0 = b.drop_last();
        assert(!b0.contains(sep)) by {
            if b0.contains(sep) {
                let i = choose|i: int| 0 <= i < b0.len() && b0[i] == sep;
                assert(b[i] == sep);
            }
        }
        lemma_split_append_plain(a, b0, sep);
        assert((a + b).drop_last() =~= a + b0);
        assert((a + b).last() == b.last());
        assert(b.last() != sep) by {
            assert(b[b.len() - 1] == b.last());
        }
        let r = split_on(a, sep);
        assert(r.last() + b =~= (r.last() + b0).push(b.last()));
        assert(split_on(a + b, sep) =~= r.update(r.len() - 1, r.last() + b));
    }
}

/// The pieces that splitting a joined list on `,` gives: the first item,
/// then each further item after a space.
pub open spec fn joined_pieces(items: Seq<Seq<char>>) -> Seq<Seq<char>>
    decreases items.len(),
{
    if items.len() <= 1 {
        items
    } else {
        joined_pieces(items.drop_last()).push(seq![' '] + items.last())
    }
}

/// Writing list items joined by `", "` and reading them back as a
/// comma-separated list gives the same items.
pub proof fn lemma_csv_of_join(items: Seq<Seq<char>>)
    requires
        forall|i: int| 0 <= i < items.len() ==> is_list_item(#[trigger] items[i]),
    ensures
        csv_items(join_with(items, list_sep())) == items,
        items.len() >= 1 ==> split_on(join_with(items, list_sep()), ',') == joined_pieces(items),
    decreases items.len(),
{
    reveal_strlit(", ");
    if items.len() == 0 {
        assert(split_on(Seq::<char>::empty(), ',') == seq![Seq::<char>::empty()]);
        assert(keep_trimmed(seq![Seq::<char>::empty()]).len() == 0) by {
            let p = seq![Seq::<char>::empty()];
            assert(p.drop_last() =~= Seq::<Seq<char>>::empty());
            assert(keep_trimmed(p.drop_last()) == Seq::<Seq<char>>::empty());
            assert(p.last() == Seq::<char>::empty());
            assert(trim_start(Seq::<char>::empty()) == Seq::<char>::empty());
            assert(trim_end(Seq::<char>::empty()) == Seq::<char>::empty());
        }
        assert(csv_items(join_with(items, list_sep())) =~= items);
    } else if items.len() == 1 {
        let x = items[0];
        assert(join_with(items, list_sep()) == x);
        lemma_split_append_plain(Seq::<char>::empty(), x, ',');
        assert(Seq::<char>::empty() + x =~= x);
        assert(split_on(x, ',') =~= seq![x]);
        lemma_trimmed_ends(x);
        assert(keep_trimmed(seq![x]) =~= seq![x]) by {
            let p = seq![x];
            assert(p.drop_last() =~= Seq::<Seq<char>>::empty());
            assert(keep_trimmed(p.drop_last()) == Seq::<Seq<char>>::empty());
            assert(p.last() == x);
            assert(trim(x) == x);
            assert(Seq::<Seq<char>>::empty().push(x) =~= p);
        }
        assert(joined_pieces(items) =~= seq![x]);
        assert(items =~= seq![x]);
    } else {
        let prev = items.drop_last();
        let x = items.last();
        assert(forall|i: int| 0 <= i < prev.len() ==> is_list_item(#[trigger] prev[i])) by {
            assert forall|i: int| 0 <= i < prev.len() implies is_list_item(#[trigger] prev[i]) by {
                assert(prev[i] == items[i]);
            }
        }
        lemma_csv_of_join(prev);
        assert(is_list_item(x)) by {
            assert(items[items.len() - 1] == x);
        }
        let j = join_with(prev, list_sep());
        let tail = seq![' '] + x;
        assert(!tail.contains(',')) by {
            if tail.contains(',') {
                let i = choose|i: int| 0 <= i < tail.len() && tail[i] == ',';
                assert(i > 0);
                assert(x[i - 1] == ',');
            }
        }
        assert(join_with(items, list_sep()) =~= (j + seq![',']) + tail);
        lemma_split_append_plain(j + seq![','], tail, ',');
        assert((j + seq![',']).drop_last() =~= j);
        lemma_split_on_nonempty(j, ',');
        let r = split_on(j, ',');
        assert(split_on(j + seq![','], ',') == r.push(Seq::<char>::empty()));
        assert(Seq::<char>::empty() + tail =~= tail);
        assert(split_on(join_with(items, list_sep()), ',') =~= r.push(tail));
        assert(joined_pieces(items) == joined_pieces(prev).push(tail));
        lemma_trimmed_ends(x);
        assert(tail.drop_first() =~= x);
        assert(trim_start(tail) == trim_start(x));
        assert(trim(tail) == x);
        assert(r.push(tail).drop_last() =~= r);
        assert(keep_trimmed(r.push(tail)) == keep_trimmed(r).push(x));
        assert(prev.push(x) =~= items);
    }
}

proof fn lemma_join_ends(items: Seq<Seq<char>>)
    requires
        items.len() > 0,
        forall|i: int| 0 <= i < items.len() ==> is_list_item(#[trigger] items[i]),
    ensures
        join_with(items, list_sep()).len() > 0,
        join_with(items, list_sep())[0] == items[0][0],
        join_with(items, list_sep()).last() == items.last().last(),
    decreases items.len(),
{
    if items.len() > 1 {
        let prev = items.drop_last();
        assert forall|i: int| 0 <= i < prev.len() implies is_list_item(#[trigger] prev[i]) by {
            assert(prev[i] == items[i]);
        }
        lemma_join_ends(prev);
        assert(is_list_item(items[items.len() - 1]));
    } else {
        assert(is_list_item(items[0]));
    }
}

/// A list of list items joined by `", "` is trimmed, and empty only when the list is.
pub proof fn lemma_join_trimmed(items: Seq<Seq<char>>)
    requires
        forall|i: int| 0 <= i < items.len() ==> is_list_item(#[trigger] items[i]),
    ensures
        is_trimmed(join_with(items, list_sep())),
        join_with(items, list_sep()).len() > 0 <==> items.len() > 0,
{
    if items.len() > 0 {
        lemma_join_ends(items);
        assert(is_list_item(items[0]));
        assert(is_list_item(items[items.len() - 1]));
        lemma_trimmed_ends(items[0]);
        lemma_trimmed_ends(items.last());
        lemma_ends_trimmed(join_with(items, list_sep()));
    } else {
        assert(trim(Seq::<char>::empty()) == Seq::<char>::empty());
    }
}

proof fn lemma_split_pieces_free(s: Seq<char>, sep: char)
    ensures
        forall|i: int| 0 <= i < split_on(s, sep).len() ==> !(#[trigger] split_on(s, sep)[i]).contains(sep),
    decreases s.len(),
{
    lemma_split_on_nonempty(s, sep);
    if s.len() > 0 {
        let r = split_on(s.drop_last(), sep);
        lemma_split_pieces_free(s.drop_last(), sep);
        lemma_split_on_nonempty(s.drop_last(), sep);
        if s.last() != sep {
            let l = r.last().push(s.last());
            assert(!r[r.len() - 1].contains(sep));
            assert(!l.contains(sep)) by {
                if l.contains(sep) {
                    let j = choose|j: int| 0 <= j < l.len() && l[j] == sep;
                    assert(r.last()[j] == sep);
                }
            }
        }
    }
}

proof fn lemma_trim_free(x: Seq<char>, c: char)
    requires
        !x.contains(c),
    ensures
        !trim(x).contains(c),
{
    lemma_trim_start_skip(x);
    let j = choose|j: int| 0 <= j <= x.len() && #[trigger] x.skip(j) == trim_start(x);
    let t = trim_start(x);
    lemma_trim_end_prefix(t);
    if trim(x).contains(c) {
        let k = choose|k: int| 0 <= k < trim(x).len() && trim(x)[k] == c;
        assert(t[k] == c);
        assert(x[j + k] == c);
    }
}

proof fn lemma_trim_end_prefix(s: Seq<char>)
    ensures
        trim_end(s) == s.take(trim_end(s).len() as int),
        trim_end(s).len() <= s.len(),
    decreases s.len(),
{
    if s.len() > 0 && is_ws(s.last()) {
        lemma_trim_end_prefix(s.drop_last());
        assert(s.drop_last().take(trim_end(s).len() as int) =~= s.take(trim_end(s).len() as int));
    } else {
        assert(s.take(s.len() as int) =~= s);
    }
}

proof fn lemma_keep_trimmed_items(parts: Seq<Seq<char>>, c: char)
    requires
        forall|i: int| 0 <= i < parts.len() ==> !(#[trigger] parts[i]).contains(c),
    ensures
        forall|i: int| 0 <= i < keep_trimmed(parts).len() ==> {
            let x = #[trigger] keep_trimmed(parts)[i];
            x.len() > 0 && is_trimmed(x) && !x.contains(c)
        },
    decreases parts.len(),
{
    if parts.len() > 0 {
        let p0 = parts.drop_last();
        assert forall|i: int| 0 <= i < p0.len() implies !(#[trigger] p0[i]).contains(c) by {
            assert(p0[i] == parts[i]);
        }
        lemma_keep_trimmed_items(p0, c);
        let t = trim(parts.last());
        assert(!parts[parts.len() - 1].contains(c));
        lemma_trim_free(parts.last(), c);
        lemma_trim_idempotent(parts.last());
        let r = keep_trimmed(p0);
        let k = keep_trimmed(parts);
        assert forall|i: int| 0 <= i < k.len() implies {
            let x = #[trigger] k[i];
            x.len() > 0 && is_trimmed(x) && !x.contains(c)
        } by {
            if i < r.len() {
                assert(k[i] == r[i]);
            } else {
                assert(k[i] == t);
            }
        }
    }
}

/// Every item read from a comma-separated list is a list item: trimmed, not
/// empty and free of commas; so writing the items back with `", "` and
/// reading them again gives the same items.
pub proof fn lemma_csv_items_stable(s: Seq<char>)
    ensures
        forall|i: int| 0 <= i < csv_items(s).len() ==> is_list_item(#[trigger] csv_items(s)[i]),
        csv_items(join_with(csv_items(s), list_sep())) == csv_items(s),
{
    lemma_split_pieces_free(s, ',');
    lemma_keep_trimmed_items(split_on(s, ','), ',');
    assert forall|i: int| 0 <= i < csv_items(s).len() implies is_list_item(#[trigger] csv_items(s)[i]) by {
        let x = csv_items(s)[i];
        assert(x.len() > 0 && is_trimmed(x) && !x.contains(','));
    }
    lemma_csv_of_join(csv_items(s));
}

} // verus!
