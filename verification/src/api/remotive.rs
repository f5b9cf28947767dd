//! The job feed's logic: the search URL, ranking jobs by how many of the
//! friend's skills they mention, and the items shown for them.
use vstd::prelude::*;
use crate::apps::{AppletItem, ItemView, item_views};
use crate::text::{contains_str, join_strings, join_with, lowercase, occurs_in, push_str, to_lower, views};
use crate::web::{url_encode, url_encoded};

verus! {

/// A remote job posting.
#[derive(Debug, Clone)]
pub struct Job {
    pub title: String,
    pub company_name: String,
    pub candidate_required_location: String,
    pub url: String,
    pub salary: String,
    pub tags: Vec<String>,
}

pub struct JobView {
    pub title: Seq<char>,
    pub company_name: Seq<char>,
    pub candidate_required_location: Seq<char>,
    pub url: Seq<char>,
    pub salary: Seq<char>,
    pub tags: Seq<Seq<char>>,
}

impl View for Job {
    type V = JobView;

    open spec fn view(&self) -> JobView {
        JobView {
            title: self.title@,
            company_name: self.company_name@,
            candidate_required_location: self.candidate_required_location@,
            url: self.url@,
            salary: self.salary@,
            tags: views(self.tags@),
        }
    }
}

pub open spec fn job_views(v: Seq<Job>) -> Seq<JobView> {
    v.map_values(|j: Job| j@)
}

impl Job {
    /// A job with the same fields.
    pub fn copy(&self) -> (res: Job)
        ensures
            res@ == self@,
    {
        let n = self.tags.len();
        let mut tags: Vec<String> = Vec::new();
        let mut i: usize = 0;
        while i < n
            invariant
                n == self.tags.len(),
                i <= n,
                tags@.len() == i,
                views(tags@) == views(self.tags@).take(i as int),
            decreases n - i,
        {
            let t = self.tags[i].clone();
            let ghost before = tags@;
            tags.push(t);
            assert(views(tags@) =~= views(self.tags@).take(i + 1));
            i = i + 1;
        }
        assert(views(self.tags@).take(n as int) =~= views(self.tags@));
        Job {
            title: self.title.clone(),
            company_name: self.company_name.clone(),
            candidate_required_location: self.candidate_required_location.clone(),
            url: self.url.clone(),
            salary: self.salary.clone(),
            tags,
        }
    }
}

/// The search for up to 30 remote jobs matching `role`.
pub fn jobs_url(role: &str) -> (res: String)
    ensures
        res@ == "https://remotive.com/api/remote-jobs?search="@ + url_encoded(role@) + "&limit=30"@,
{
    let mut u = "https://remotive.com/api/remote-jobs?search=".to_string();
    push_str(&mut u, url_encode(role).as_str());
    push_str(&mut u, "&limit=30");
    u
}

/// The lower-cased text a job is matched against: its title and its tags.
pub open spec fn job_text(j: JobView) -> Seq<char> {
    lowercase(j.title + " "@ + join_with(j.tags, " "@))
}

/// How many of the (lower-cased) skills occur in `text`.
pub open spec fn hits(skills_lower: Seq<Seq<char>>, text: Seq<char>) -> int
    decreases skills_lower.len(),
{
    if skills_lower.len() == 0 {
        0
    } else {
        hits(skills_lower.drop_last(), text) + if occurs_in(skills_lower.last(), text) {
            1int
        } else {
            0int
        }
    }
}

/// How many of `skills` the job mentions, ignoring case.
pub open spec fn job_score(skills: Seq<Seq<char>>, j: JobView) -> int {
    hits(skills.map_values(|s: Seq<char>| lowercase(s)), job_text(j))
}

/// `x` put into `s` before the first entry of a lower score.
pub open spec fn insert_desc(s: Seq<(int, JobView)>, x: (int, JobView)) -> Seq<(int, JobView)>
    decreases s.len(),
{
    if s.len() == 0 {
        seq![x]
    } else if s[0].0 < x.0 {
        seq![x] + s
    } else {
        seq![s[0]] + insert_desc(s.drop_first(), x)
    }
}

/// Scored entries sorted by score, highest first; entries of equal score
/// keep their order.
pub open spec fn sort_desc(s: Seq<(int, JobView)>) -> Seq<(int, JobView)>
    decreases s.len(),
{
    if s.len() == 0 {
        Seq::empty()
    } else {
        insert_desc(sort_desc(s.drop_last()), s.last())
    }
}

/// The jobs, ranked by how many skills they mention when there are skills.
pub open spec fn ranked(jobs: Seq<JobView>, skills: Seq<Seq<char>>) -> Seq<JobView> {
    if skills.len() == 0 {
        jobs
    } else {
        sort_desc(jobs.map_values(|j: JobView| (job_score(skills, j), j))).map_values(
            |e: (int, JobView)| e.1,
        )
    }
}

pub open spec fn entry_views(v: Seq<(u64, Job)>) -> Seq<(int, JobView)> {
    v.map_values(|e: (u64, Job)| (e.0 as int, e.1@))
}

proof fn lemma_insert_desc_at(s: Seq<(int, JobView)>, x: (int, JobView), p: int)
    requires
        0 <= p <= s.len(),
        forall|k: int| 0 <= k < p ==> !(#[trigger] s[k].0 < x.0),
        p < s.len() ==> s[p].0 < x.0,
    ensures
        insert_desc(s, x) == s.insert(p, x),
    decreases s.len(),
{
    if s.len() == 0 {
        assert(s.insert(p, x) =~= seq![x]);
    } else if s[0].0 < x.0 {
        assert(p == 0);
        assert(s.insert(p, x) =~= seq![x] + s);
    } else {
        let t = s.drop_first();
        assert forall|k: int| 0 <= k < p - 1 implies !(#[trigger] t[k].0 < x.0) by {
            assert(t[k] == s[k + 1]);
        }
        lemma_insert_desc_at(t, x, p - 1);
        assert(s.insert(p, x) =~= seq![s[0]] + t.insert(p - 1, x));
    }
}

/// How many of `skills_lower` occur in `text`.
pub fn count_hits(skills_lower: &Vec<String>, text: &str) -> (res: u64)
    ensures
        res == hits(views(skills_lower@), text@),
{
    let n = skills_lower.len();
    let mut c: u64 = 0;
    let mut i: usize = 0;
    proof {
        assert(views(skills_lower@).take(0) =~= Seq::<Seq<char>>::empty());
    }
    while i < n
        invariant
            n == skills_lower.len(),
            i <= n,
            c == hits(views(skills_lower@).take(i as int), text@),
            c <= i,
        decreases n - i,
    {
        let ghost vs = views(skills_lower@);
        assert(vs.take(i + 1).drop_last() =~= vs.take(i as int));
        if contains_str(text, skills_lower[i].as_str()) {
            c = c + 1;
        }
        i = i + 1;
    }
    assert(views(skills_lower@).take(n as int) =~= views(skills_lower@));
    c
}

/// The text a job is matched against, lower-cased.
fn job_text_exec(j: &Job) -> (res: String)
    ensures
        res@ == job_text(j@),
{
    let mut t = j.title.clone();
    push_str(&mut t, " ");
    push_str(&mut t, join_strings(&j.tags, " ").as_str());
    to_lower(t.as_str())
}

/// The jobs, ranked by how many of `skills` each mentions (ignoring case),
/// most first and otherwise in their original order; unchanged when there are
/// no skills.
pub fn rank_jobs(jobs: Vec<Job>, skills: &Vec<String>) -> (res: Vec<Job>)
    ensures
        job_views(res@) == ranked(job_views(jobs@), views(skills@)),
{
    if skills.len() == 0 {
        return jobs;
    }
    let ghost sk = views(skills@);
    let mut lower: Vec<String> = Vec::new();
    let m = skills.len();
    let mut q: usize = 0;
    while q < m
        invariant
            m == skills.len(),
            sk == views(skills@),
            q <= m,
            lower@.len() == q,
            views(lower@) == sk.map_values(|s: Seq<char>| lowercase(s)).take(q as int),
        decreases m - q,
    {
        let l = to_lower(skills[q].as_str());
        lower.push(l);
        assert(views(lower@) =~= sk.map_values(|s: Seq<char>| lowercase(s)).take(q + 1));
        q = q + 1;
    }
    assert(sk.map_values(|s: Seq<char>| lowercase(s)).take(m as int) =~= sk.map_values(
        |s: Seq<char>| lowercase(s),
    ));
    let ghost scored = job_views(jobs@).map_values(|j: JobView| (job_score(sk, j), j));
    let n = jobs.len();
    let mut entries: Vec<(u64, Job)> = Vec::new();
    let mut i: usize = 0;
    while i < n
        invariant
            n == jobs.len(),
            i <= n,
            scored == job_views(jobs@).map_values(|j: JobView| (job_score(sk, j), j)),
            views(lower@) == sk.map_values(|s: Seq<char>| lowercase(s)),
            entry_views(entries@) == scored.take(i as int),
        decreases n - i,
    {
        let job = jobs[i].copy();
        let text = job_text_exec(&job);
        let sc = count_hits(&lower, text.as_str());
        assert(sc == job_score(sk, jobs@[i as int]@));
        let ghost before = entries@;
        let ghost jv = job@;
        entries.push((sc, job));
        assert(scored[i as int] == (sc as int, jv));
        assert(scored.take(i + 1) =~= scored.take(i as int).push((sc as int, jv)));
        assert(entry_views(entries@) =~= entry_views(before).push((sc as int, jv)));
        i = i + 1;
    }
    assert(scored.take(n as int) =~= scored);
    sort_by_score(entries)
}

/// The jobs of `entries` in order of their scores, highest first; jobs of
/// equal score keep their order.
pub fn sort_by_score(entries: Vec<(u64, Job)>) -> (res: Vec<Job>)
    ensures
        job_views(res@) == sort_desc(entry_views(entries@)).map_values(|e: (int, JobView)| e.1),
{
    let ghost scored = entry_views(entries@);
    let n = entries.len();
    let mut sorted: Vec<(u64, Job)> = Vec::new();
    let mut i: usize = 0;
    assert(scored.take(0) =~= Seq::<(int, JobView)>::empty());
    while i < n
        invariant
            n == entries.len(),
            i <= n,
            scored == entry_views(entries@),
            entry_views(sorted@) == sort_desc(scored.take(i as int)),
        decreases n - i,
    {
        let sc = entries[i].0;
        let job = entries[i].1.copy();
        let len = sorted.len();
        let mut p: usize = 0;
        while p < len && sorted[p].0 >= sc
            invariant
                len == sorted.len(),
                p <= len,
                forall|k: int| 0 <= k < p ==> #[trigger] sorted@[k].0 >= sc,
            decreases len - p,
        {
            p = p + 1;
        }
        proof {
            let ev = entry_views(sorted@);
            let x = (sc as int, job@);
            assert forall|k: int| 0 <= k < p implies !(#[trigger] ev[k].0 < x.0) by {
                assert(ev[k].0 == sorted@[k].0);
            }
            lemma_insert_desc_at(ev, x, p as int);
            assert(scored.take(i + 1).drop_last() =~= scored.take(i as int));
            assert(scored.take(i + 1).last() == x);
        }
        let ghost before = sorted@;
        sorted.insert(p, (sc, job));
        assert(entry_views(sorted@) =~= entry_views(before).insert(p as int, (sc as int, job@)));
        i = i + 1;
    }
    assert(scored.take(n as int) =~= scored);
    let mut out: Vec<Job> = Vec::new();
    let len = sorted.len();
    let mut k: usize = 0;
    while k < len
        invariant
            len == sorted.len(),
            k <= len,
            out@.len() == k,
            job_views(out@) == entry_views(sorted@).take(k as int).map_values(|e: (int, JobView)| e.1),
        decreases len - k,
    {
        let j = sorted[k].1.copy();
        let ghost before = out@;
        out.push(j);
        proof {
            let lhs = job_views(out@);
            let rhs = entry_views(sorted@).take(k + 1).map_values(|e: (int, JobView)| e.1);
            let prev = entry_views(sorted@).take(k as int).map_values(|e: (int, JobView)| e.1);
            assert forall|q: int| 0 <= q < k + 1 implies lhs[q] == rhs[q] by {
                if q < k {
                    assert(lhs[q] == job_views(before)[q]);
                    assert(job_views(before)[q] == prev[q]);
                } else {
                    assert(entry_views(sorted@)[q].1 == sorted@[q].1@);
                }
            }
            assert(lhs =~= rhs);
        }
        k = k + 1;
    }
    assert(entry_views(sorted@).take(len as int) =~= entry_views(sorted@));
    out
}

/// The item shown for a job: title and company, location (and salary when
/// given), and the posting's URL.
pub open spec fn job_item(j: JobView) -> ItemView {
    ItemView {
        title: j.title + " @ "@ + j.company_name,
        subtitle: Some(
            if j.salary.len() == 0 {
                j.candidate_required_location
            } else {
                j.candidate_required_location + " · "@ + j.salary
            },
        ),
        url: Some(j.url),
    }
}

/// The items shown for the jobs, in order.
pub fn job_items(jobs: &Vec<Job>) -> (res: Vec<AppletItem>)
    ensures
        item_views(res@) == job_views(jobs@).map_values(|j: JobView| job_item(j)),
{
    let n = jobs.len();
    let mut out: Vec<AppletItem> = Vec::new();
    let mut i: usize = 0;
    while i < n
        invariant
            n == jobs.len(),
            i <= n,
            out@.len() == i,
            item_views(out@) == job_views(jobs@).take(i as int).map_values(|j: JobView| job_item(j)),
        decreases n - i,
    {
        let j = &jobs[i];
        let mut title = j.title.clone();
        push_str(&mut title, " @ ");
        push_str(&mut title, j.company_name.as_str());
        let mut sub = j.candidate_required_location.clone();
        if !j.salary.as_str().is_empty() {
            push_str(&mut sub, " · ");
            push_str(&mut sub, j.salary.as_str());
        }
        let item = AppletItem { title, subtitle: Some(sub), url: Some(j.url.clone()) };
        assert(item@ == job_item(jobs@[i as int]@));
        let ghost before = out@;
        out.push(item);
        proof {
            let lhs = item_views(out@);
            let rhs = job_views(jobs@).take(i + 1).map_values(|j: JobView| job_item(j));
            let prev = job_views(jobs@).take(i as int).map_values(|j: JobView| job_item(j));
            assert forall|q: int| 0 <= q < i + 1 implies lhs[q] == rhs[q] by {
                if q < i {
                    assert(lhs[q] == item_views(before)[q]);
                    assert(item_views(before)[q] == prev[q]);
                }
            }
            assert(lhs =~= rhs);
        }
        i = i + 1;
    }
    assert(job_views(jobs@).take(n as int) =~= job_views(jobs@));
    out
}

/// Entries in order of score, highest first.
pub open spec fn sorted_desc(s: Seq<(int, JobView)>) -> bool {
    forall|i: int, j: int| 0 <= i < j < s.len() ==> s[i].0 >= s[j].0
}

pub open spec fn entry_job(e: (int, JobView)) -> JobView {
    e.1
}

proof fn lemma_insert_desc(s: Seq<(int, JobView)>, x: (int, JobView))
    ensures
        insert_desc(s, x).len() == s.len() + 1,
        forall|i: int|
            0 <= i < insert_desc(s, x).len() ==> #[trigger] insert_desc(s, x)[i] == x || s.contains(
                insert_desc(s, x)[i],
            ),
        sorted_desc(s) ==> sorted_desc(insert_desc(s, x)),
        insert_desc(s, x).map_values(|e: (int, JobView)| entry_job(e)).to_multiset() == s.map_values(
            |e: (int, JobView)| entry_job(e),
        ).to_multiset().insert(x.1),
    decreases s.len(),
{
    broadcast use vstd::seq_lib::group_to_multiset_ensures;
    let f = |e: (int, JobView)| entry_job(e);
    let r = insert_desc(s, x);
    if s.len() == 0 {
        assert(r.map_values(f) =~= s.map_values(f).insert(0, x.1));
    } else if s[0].0 < x.0 {
        assert(r =~= s.insert(0, x));
        assert(r.map_values(f) =~= s.map_values(f).insert(0, x.1));
        assert forall|i: int| 0 <= i < r.len() implies #[trigger] r[i] == x || s.contains(r[i]) by {
            if i > 0 {
                assert(r[i] == s[i - 1]);
            }
        }
    } else {
        let t = s.drop_first();
        lemma_insert_desc(t, x);
        let q = insert_desc(t, x);
        assert(r =~= q.insert(0, s[0]));
        assert(r.map_values(f) =~= q.map_values(f).insert(0, s[0].1));
        assert(s.map_values(f) =~= t.map_values(f).insert(0, s[0].1));
        assert(r.map_values(f).to_multiset() =~= s.map_values(f).to_multiset().insert(x.1));
        assert forall|i: int| 0 <= i < r.len() implies #[trigger] r[i] == x || s.contains(r[i]) by {
            if i == 0 {
                assert(s[0] == r[0]);
            } else {
                assert(r[i] == q[i - 1]);
                if q[i - 1] != x {
                    let k = choose|k: int| 0 <= k < t.len() && t[k] == q[i - 1];
                    assert(s[k + 1] == t[k]);
                }
            }
        }
        if sorted_desc(s) {
            assert(sorted_desc(t)) by {
                assert forall|i: int, j: int| 0 <= i < j < t.len() implies t[i].0 >= t[j].0 by {
                    assert(t[i] == s[i + 1] && t[j] == s[j + 1]);
                }
            }
            assert forall|i: int, j: int| 0 <= i < j < r.len() implies r[i].0 >= r[j].0 by {
                if i == 0 {
                    assert(r[j] == q[j - 1]);
                    if q[j - 1] != x {
                        let k = choose|k: int| 0 <= k < t.len() && t[k] == q[j - 1];
                        assert(t[k] == s[k + 1]);
                    }
                } else {
                    assert(r[i] == q[i - 1] && r[j] == q[j - 1]);
                }
            }
        }
    }
}

proof fn lemma_sort_desc(s: Seq<(int, JobView)>)
    ensures
        sort_desc(s).len() == s.len(),
        sorted_desc(sort_desc(s)),
        forall|i: int| 0 <= i < sort_desc(s).len() ==> s.contains(#[trigger] sort_desc(s)[i]),
        sort_desc(s).map_values(|e: (int, JobView)| entry_job(e)).to_multiset() == s.map_values(
            |e: (int, JobView)| entry_job(e),
        ).to_multiset(),
    decreases s.len(),
{
    broadcast use vstd::seq_lib::group_to_multiset_ensures;
    let f = |e: (int, JobView)| entry_job(e);
    if s.len() > 0 {
        let s0 = s.drop_last();
        lemma_sort_desc(s0);
        let p = sort_desc(s0);
        lemma_insert_desc(p, s.last());
        assert(s.map_values(f) =~= s0.map_values(f).push(s.last().1));
        let r = sort_desc(s);
        assert forall|i: int| 0 <= i < r.len() implies s.contains(#[trigger] r[i]) by {
            if r[i] == s.last() {
                assert(s[s.len() - 1] == s.last());
            } else {
                let k = choose|k: int| 0 <= k < p.len() && p[k] == r[i];
                let m = choose|m: int| 0 <= m < s0.len() && s0[m] == p[k];
                assert(s[m] == s0[m]);
            }
        }
    } else {
        assert(sort_desc(s).map_values(f) =~= s.map_values(f));
    }
}

/// Ranking keeps every job, as often as it came, and puts the jobs in order
/// of how many of the skills each one mentions, most first.
pub proof fn lemma_ranked(jobs: Seq<JobView>, skills: Seq<Seq<char>>)
    ensures
        ranked(jobs, skills).to_multiset() == jobs.to_multiset(),
        forall|i: int, j: int|
            0 <= i < j < ranked(jobs, skills).len() ==> job_score(skills, ranked(jobs, skills)[i])
                >= job_score(skills, ranked(jobs, skills)[j]),
{
    if skills.len() > 0 {
        let f = |e: (int, JobView)| entry_job(e);
        let es = jobs.map_values(|j: JobView| (job_score(skills, j), j));
        lemma_sort_desc(es);
        let r = sort_desc(es);
        assert(ranked(jobs, skills) =~= r.map_values(f));
        assert(es.map_values(f) =~= jobs);
        assert forall|i: int| 0 <= i < r.len() implies (#[trigger] r[i]).0 == job_score(skills, r[i].1) by {
            let k = choose|k: int| 0 <= k < es.len() && es[k] == r[i];
        }
        assert forall|i: int, j: int| 0 <= i < j < r.len() implies job_score(skills, r.map_values(f)[i])
            >= job_score(skills, r.map_values(f)[j]) by {
            assert(r[i].0 >= r[j].0);
            assert(r.map_values(f)[i] == r[i].1);
            assert(r.map_values(f)[j] == r[j].1);
        }
    }
}

proof fn lemma_occurs_self(x: Seq<char>)
    ensures
        occurs_in(x, x),
{
    let i: int = 0;
    assert(x.subrange(i, i + x.len()) =~= x);
}

proof fn lemma_occurs_within(x: Seq<char>, a: Seq<char>, p: Seq<char>, q: Seq<char>)
    requires
        occurs_in(x, a),
    ensures
        occurs_in(x, p + a + q),
{
    let i = choose|i: int| 0 <= i <= a.len() - x.len() && #[trigger] a.subrange(i, i + x.len()) == x;
    let t = p + a + q;
    let k = i + p.len();
    assert(t.subrange(k, k + x.len()) =~= a.subrange(i, i + x.len()));
}

proof fn lemma_join_contains_items(items: Seq<Seq<char>>, sep: Seq<char>)
    ensures
        forall|i: int| 0 <= i < items.len() ==> occurs_in(#[trigger] items[i], join_with(items, sep)),
    decreases items.len(),
{
    if items.len() == 1 {
        lemma_occurs_self(items[0]);
    } else if items.len() > 1 {
        let i0 = items.drop_last();
        lemma_join_contains_items(i0, sep);
        let j0 = join_with(i0, sep);
        assert forall|i: int| 0 <= i < items.len() implies occurs_in(#[trigger] items[i], join_with(items, sep)) by {
            if i < items.len() - 1 {
                assert(i0[i] == items[i]);
                lemma_occurs_within(items[i], j0, Seq::empty(), sep + items.last());
                assert(Seq::<char>::empty() + j0 + (sep + items.last()) =~= join_with(items, sep));
            } else {
                lemma_occurs_self(items.last());
                lemma_occurs_within(items.last(), items.last(), j0 + sep, Seq::empty());
                assert((j0 + sep) + items.last() + Seq::<char>::empty() =~= join_with(items, sep));
            }
        }
    }
}

/// The text a job is matched against is the lower-cased form of a text
/// that starts with the job's title and contains each of its tags.
pub proof fn lemma_job_text_covers(j: JobView)
    ensures
        exists|t: Seq<char>|
            #![trigger lowercase(t)]
            job_text(j) == lowercase(t) && t.take(j.title.len() as int) == j.title && forall|i: int|
                0 <= i < j.tags.len() ==> occurs_in(#[trigger] j.tags[i], t),
{
    let t = j.title + " "@ + join_with(j.tags, " "@);
    assert(t.take(j.title.len() as int) =~= j.title);
    lemma_join_contains_items(j.tags, " "@);
    assert forall|i: int| 0 <= i < j.tags.len() implies occurs_in(#[trigger] j.tags[i], t) by {
        lemma_occurs_within(j.tags[i], join_with(j.tags, " "@), j.title + " "@, Seq::empty());
        assert((j.title + " "@) + join_with(j.tags, " "@) + Seq::<char>::empty() =~= t);
    }
    assert(job_text(j) == lowercase(t));
}

/// A job's score is the number of skills whose lower-cased form occurs in
/// the job's lower-cased text.
pub proof fn lemma_job_score_counts(skills: Seq<Seq<char>>, j: JobView)
    ensures
        job_score(skills, j) == skills.filter(
            |s: Seq<char>| occurs_in(lowercase(s), job_text(j)),
        ).len(),
{
    lemma_hits_count(skills, job_text(j));
}

proof fn lemma_hits_count(skills: Seq<Seq<char>>, text: Seq<char>)
    ensures
        hits(skills.map_values(|s: Seq<char>| lowercase(s)), text) == skills.filter(
            |s: Seq<char>| occurs_in(lowercase(s), text),
        ).len(),
    decreases skills.len(),
{
    reveal(Seq::filter);
    let pred = |s: Seq<char>| occurs_in(lowercase(s), text);
    let low = skills.map_values(|s: Seq<char>| lowercase(s));
    if skills.len() > 0 {
        let s0 = skills.drop_last();
        lemma_hits_count(s0, text);
        assert(low.drop_last() =~= s0.map_values(|s: Seq<char>| lowercase(s)));
        assert(low.last() == lowercase(skills.last()));
    } else {
        assert(low.len() == 0);
    }
}

} // verus!
