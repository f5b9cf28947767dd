use friends::api::open_library::{Book, book_items, book_search_urls, dedup_by_keys, merge_books};
use friends::api::remotive::{Job, count_hits, job_items, jobs_url, rank_jobs, sort_by_score};
use friends::api::wikipedia::{WikiFetch, WikiSummary, summaries_from, summary_items, summary_url};
use friends::data::friend::BookProfile;

fn job(title: &str, tags: &[&str]) -> Job {
    Job {
        title: title.to_string(),
        company_name: "Acme".to_string(),
        candidate_required_location: "Worldwide".to_string(),
        url: format!("https://jobs.example/{title}"),
        salary: String::new(),
        tags: tags.iter().map(|t| t.to_string()).collect(),
    }
}

fn book(title: &str, year: Option<i32>) -> Book {
    Book {
        title: title.to_string(),
        authors: vec!["Le Guin".to_string(), "Other".to_string()],
        first_publish_year: year,
        key: format!("/works/{title}"),
    }
}

fn titles(jobs: &[Job]) -> Vec<String> {
    jobs.iter().map(|j| j.title.clone()).collect()
}

#[test]
fn jobs_url_encodes_the_role() {
    assert_eq!(
        jobs_url("Software Engineer"),
        "https://remotive.com/api/remote-jobs?search=Software%20Engineer&limit=30"
    );
    assert_eq!(jobs_url("C++/é"), "https://remotive.com/api/remote-jobs?search=C%2B%2B%2F%C3%A9&limit=30");
}

#[test]
fn ranking_orders_by_matching_skills_stably() {
    let jobs = vec![
        job("Go Developer", &["backend"]),
        job("Rust Engineer", &["Go", "systems"]),
        job("Designer", &[]),
        job("RUST tooling", &[]),
    ];
    let skills = vec!["rust".to_string(), "GO".to_string()];
    let ranked = rank_jobs(jobs, &skills);
    assert_eq!(
        titles(&ranked),
        vec!["Rust Engineer", "Go Developer", "RUST tooling", "Designer"]
    );
}

#[test]
fn ranking_without_skills_keeps_order() {
    let jobs = vec![job("B", &[]), job("A", &["rust"])];
    let ranked = rank_jobs(jobs, &vec![]);
    assert_eq!(titles(&ranked), vec!["B", "A"]);
}

#[test]
fn job_items_show_company_location_and_salary() {
    let mut paid = job("Dev", &[]);
    paid.salary = "$100k".to_string();
    let items = job_items(&vec![job("Ops", &[]), paid]);
    assert_eq!(items[0].title, "Ops @ Acme");
    assert_eq!(items[0].subtitle.as_deref(), Some("Worldwide"));
    assert_eq!(items[0].url.as_deref(), Some("https://jobs.example/Ops"));
    assert_eq!(items[1].subtitle.as_deref(), Some("Worldwide · $100k"));
}

#[test]
fn book_searches_per_genre_then_author() {
    let profile = BookProfile {
        genres: vec!["science fiction".to_string()],
        authors: vec!["Le Guin".to_string()],
    };
    assert_eq!(
        book_search_urls(&profile),
        vec![
            "https://openlibrary.org/search.json?subject=science%20fiction&limit=10&fields=title,author_name,first_publish_year,key".to_string(),
            "https://openlibrary.org/search.json?author=Le%20Guin&limit=10&fields=title,author_name,first_publish_year,key".to_string(),
        ]
    );
    assert!(book_search_urls(&BookProfile::default()).is_empty());
}

#[test]
fn merging_drops_consecutive_repeated_titles() {
    let merged = merge_books(&vec![
        vec![book("Dune", Some(1965)), book("dune", None)],
        vec![book("DUNE", None), book("Earthsea", None), book("Dune", None)],
    ]);
    let t: Vec<&str> = merged.iter().map(|b| b.title.as_str()).collect();
    assert_eq!(t, vec!["Dune", "Earthsea", "Dune"]);
    assert_eq!(merged[0].first_publish_year, Some(1965));
    assert!(merge_books(&vec![]).is_empty());
}

#[test]
fn book_items_show_authors_year_and_link() {
    let items = book_items(&vec![book("Dune", Some(1965)), book("X", None)]);
    assert_eq!(items[0].title, "Dune");
    assert_eq!(items[0].subtitle.as_deref(), Some("Le Guin, Other (1965)"));
    assert_eq!(items[0].url.as_deref(), Some("https://openlibrary.org/works/Dune"));
    assert_eq!(items[1].subtitle.as_deref(), Some("Le Guin, Other"));
}

#[test]
fn summary_url_encodes_the_interest() {
    assert_eq!(
        summary_url("Rust (programming language)"),
        "https://en.wikipedia.org/api/rest_v1/page/summary/Rust%20%28programming%20language%29"
    );
}

#[test]
fn summaries_follow_each_outcome() {
    let interests = vec!["a".to_string(), "b".to_string(), "c".to_string()];
    let outcomes = vec![
        WikiFetch::Found(WikiSummary { title: "A".to_string(), extract: "about a".to_string() }),
        WikiFetch::Failed,
        WikiFetch::NotFound,
    ];
    let s = summaries_from(&interests, &outcomes);
    assert_eq!(s.len(), 2);
    assert_eq!(s[0].title, "A");
    assert_eq!(s[0].extract, "about a");
    assert_eq!(s[1].title, "c");
    assert_eq!(s[1].extract, "(No Wikipedia article found)");
    let items = summary_items(&s);
    assert_eq!(items[1].title, "c");
    assert_eq!(items[1].subtitle.as_deref(), Some("(No Wikipedia article found)"));
    assert!(items[0].url.is_none());
}

#[test]
fn scores_count_skills_found_in_text() {
    let skills = vec!["rust".to_string(), "go".to_string(), "c++".to_string()];
    assert_eq!(count_hits(&skills, "rust and go"), 2);
    assert_eq!(count_hits(&skills, "RUST"), 0);
    assert_eq!(count_hits(&vec![], "anything"), 0);
    assert_eq!(count_hits(&vec![String::new()], "x"), 1);
}

#[test]
fn sorting_by_score_is_stable_and_descending() {
    let sorted = sort_by_score(vec![
        (1, job("a", &[])),
        (3, job("b", &[])),
        (1, job("c", &[])),
        (0, job("d", &[])),
        (3, job("e", &[])),
    ]);
    assert_eq!(titles(&sorted), vec!["b", "e", "a", "c", "d"]);
    assert!(sort_by_score(vec![]).is_empty());
}

#[test]
fn dedup_compares_with_the_last_kept_key() {
    let books = vec![book("A", None), book("B", None), book("C", None), book("D", None)];
    let keys = vec!["x".to_string(), "x".to_string(), "y".to_string(), "x".to_string()];
    let kept = dedup_by_keys(&books, &keys);
    let t: Vec<&str> = kept.iter().map(|b| b.title.as_str()).collect();
    assert_eq!(t, vec!["A", "C", "D"]);
}
