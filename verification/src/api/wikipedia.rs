//! The conversation prep's logic: the summary URL for an interest, what is
//! shown for each lookup, and the items shown.
use vstd::prelude::*;
use crate::apps::{AppletItem, ItemView, item_views};
use crate::text::{push_str, views};
use crate::web::{url_encode, url_encoded};

verus! {

/// An encyclopedia summary of one topic.
#[derive(Debug, Clone)]
pub struct WikiSummary {
    pub title: String,
    pub extract: String,
}

pub struct SummaryView {
    pub title: Seq<char>,
    pub extract: Seq<char>,
}

impl View for WikiSummary {
    type V = SummaryView;

    open spec fn view(&self) -> SummaryView {
        SummaryView { title: self.title@, extract: self.extract@ }
    }
}

/// How looking up one interest went.
#[derive(Debug, Clone)]
pub enum WikiFetch {
    /// The request could not be made.
    Failed,
    /// The request was answered, but not with a summary.
    NotFound,
    /// The summary.
    Found(WikiSummary),
}

pub enum FetchView {
    Failed,
    NotFound,
    Found(SummaryView),
}

impl View for WikiFetch {
    type V = FetchView;

    open spec fn view(&self) -> FetchView {
        match self {
            WikiFetch::Failed => FetchView::Failed,
            WikiFetch::NotFound => FetchView::NotFound,
            WikiFetch::Found(s) => FetchView::Found(s@),
        }
    }
}

/// The summary endpoint for `interest`.
pub fn summary_url(interest: &str) -> (res: String)
    ensures
        res@ == "https://en.wikipedia.org/api/rest_v1/page/summary/"@ + url_encoded(interest@),
{
    let mut u = "https://en.wikipedia.org/api/rest_v1/page/summary/".to_string();
    push_str(&mut u, url_encode(interest).as_str());
    u
}

pub open spec fn not_found_text() -> Seq<char> {
    "(No Wikipedia article found)"@
}

/// The summaries shown for the interests, given how each lookup went: the
/// summary when there is one, a placeholder titled by the interest when the
/// answer held none, and nothing when the request failed.
pub open spec fn shown_summaries(interests: Seq<Seq<char>>, outcomes: Seq<FetchView>) -> Seq<SummaryView>
    decreases outcomes.len(),
{
    if outcomes.len() == 0 {
        Seq::empty()
    } else {
        let r = shown_summaries(interests.drop_last(), outcomes.drop_last());
        match outcomes.last() {
            FetchView::Failed => r,
            FetchView::NotFound => r.push(
                SummaryView { title: interests.last(), extract: not_found_text() },
            ),
            FetchView::Found(s) => r.push(s),
        }
    }
}

pub open spec fn fetch_views(v: Seq<WikiFetch>) -> Seq<FetchView> {
    v.map_values(|f: WikiFetch| f@)
}

pub open spec fn summary_views(v: Seq<WikiSummary>) -> Seq<SummaryView> {
    v.map_values(|s: WikiSummary| s@)
}

/// The summaries shown for `interests`, where `outcomes[i]` is how looking up
/// `interests[i]` went.
pub fn summaries_from(interests: &Vec<String>, outcomes: &Vec<WikiFetch>) -> (res: Vec<WikiSummary>)
    requires
        interests.len() == outcomes.len(),
    ensures
        summary_views(res@) == shown_summaries(views(interests@), fetch_views(outcomes@)),
{
    let n = outcomes.len();
    let mut out: Vec<WikiSummary> = Vec::new();
    let mut i: usize = 0;
    assert(fetch_views(outcomes@).take(0) =~= Seq::<FetchView>::empty());
    while i < n
        invariant
            n == outcomes.len(),
            n == interests.len(),
            i <= n,
            summary_views(out@) == shown_summaries(
                views(interests@).take(i as int),
                fetch_views(outcomes@).take(i as int),
            ),
        decreases n - i,
    {
        let ghost before = out@;
        proof {
            assert(views(interests@).take(i + 1).drop_last() =~= views(interests@).take(i as int));
            assert(fetch_views(outcomes@).take(i + 1).drop_last() =~= fetch_views(outcomes@).take(
                i as int,
            ));
            assert(fetch_views(outcomes@).take(i + 1).last() == outcomes@[i as int]@);
            assert(views(interests@).take(i + 1).last() == interests@[i as int]@);
        }
        match &outcomes[i] {
            WikiFetch::Failed => {},
            WikiFetch::NotFound => {
                out.push(
                    WikiSummary {
                        title: interests[i].clone(),
                        extract: "(No Wikipedia article found)".to_string(),
                    },
                );
                assert(summary_views(out@) =~= summary_views(before).push(out@.last()@));
            },
            WikiFetch::Found(s) => {
                out.push(WikiSummary { title: s.title.clone(), extract: s.extract.clone() });
                assert(summary_views(out@) =~= summary_views(before).push(out@.last()@));
            },
        }
        i = i + 1;
    }
    assert(views(interests@).take(n as int) =~= views(interests@));
    assert(fetch_views(outcomes@).take(n as int) =~= fetch_views(outcomes@));
    out
}

pub open spec fn summary_item(s: SummaryView) -> ItemView {
    ItemView { title: s.title, subtitle: Some(s.extract), url: None }
}

/// The items shown for the summaries: title and extract.
pub fn summary_items(summaries: &Vec<WikiSummary>) -> (res: Vec<AppletItem>)
    ensures
        item_views(res@) == summary_views(summaries@).map_values(|s: SummaryView| summary_item(s)),
{
    let n = summaries.len();
    let mut out: Vec<AppletItem> = Vec::new();
    let mut i: usize = 0;
    while i < n
        invariant
            n == summaries.len(),
            i <= n,
            item_views(out@) == summary_views(summaries@).take(i as int).map_values(
                |s: SummaryView| summary_item(s),
            ),
        decreases n - i,
    {
        let s = &summaries[i];
        let item = AppletItem { title: s.title.clone(), subtitle: Some(s.extract.clone()), url: None };
        let ghost before = out@;
        out.push(item);
        proof {
            crate::text::lemma_map_prefix_push(
                item_views(before),
                summary_views(summaries@),
                |s: SummaryView| summary_item(s),
                i as int,
                item@,
            );
            assert(item_views(out@) =~= item_views(before).push(item@));
        }
        i = i + 1;
    }
    assert(summary_views(summaries@).take(n as int) =~= summary_views(summaries@));
    out
}

} // verus!
