use friends::apps::book_recs::BookRecsApplet;
use friends::apps::job_feed::JobFeedApplet;
use friends::apps::wiki_prep::WikiPrepApplet;
use friends::apps::{AppletKind, available_applets, build_registry};
use friends::data::friend::{BookProfile, Friend, JobHuntProfile};
use friends::data::profile::Profile;

fn bare_friend() -> Friend {
    Friend::new("Alice".to_string())
}

fn friend_with_job(role: &str) -> Friend {
    let mut f = bare_friend();
    f.job_hunt = Some(JobHuntProfile { desired_role: role.to_string(), ..Default::default() });
    f
}

fn friend_with_books(genres: &[&str], authors: &[&str]) -> Friend {
    let mut f = bare_friend();
    f.book_profile = Some(BookProfile {
        genres: genres.iter().map(|s| s.to_string()).collect(),
        authors: authors.iter().map(|s| s.to_string()).collect(),
    });
    f
}

fn friend_with_interests(interests: &[&str]) -> Friend {
    let mut f = bare_friend();
    f.interests = interests.iter().map(|s| s.to_string()).collect();
    f
}

fn job_profile(role: &str) -> Profile {
    let mut m = Profile::new();
    if !role.is_empty() {
        m.insert("desired_role".to_string(), role.to_string());
    }
    m
}

fn book_profile(genres: &str, authors: &str) -> Profile {
    let mut m = Profile::new();
    m.insert("genres".to_string(), genres.to_string());
    m.insert("authors".to_string(), authors.to_string());
    m
}

fn interests_profile(interests: &str) -> Profile {
    let mut m = Profile::new();
    m.insert("interests".to_string(), interests.to_string());
    m
}

#[test]
fn test_empty_friend_has_no_applets() {
    assert!(available_applets(&bare_friend()).is_empty());
}

#[test]
fn test_job_feed_unlocks_with_nonempty_role() {
    let applets = available_applets(&friend_with_job("Engineer"));
    assert!(applets.contains(&AppletKind::JobFeed));
}

#[test]
fn test_job_feed_does_not_unlock_with_empty_role() {
    let applets = available_applets(&friend_with_job(""));
    assert!(!applets.contains(&AppletKind::JobFeed));
}

#[test]
fn test_book_recs_unlocks_with_genres() {
    let applets = available_applets(&friend_with_books(&["sci-fi"], &[]));
    assert!(applets.contains(&AppletKind::BookRecs));
}

#[test]
fn test_book_recs_unlocks_with_authors_only() {
    let applets = available_applets(&friend_with_books(&[], &["Le Guin"]));
    assert!(applets.contains(&AppletKind::BookRecs));
}

#[test]
fn test_book_recs_does_not_unlock_when_both_empty() {
    let applets = available_applets(&friend_with_books(&[], &[]));
    assert!(!applets.contains(&AppletKind::BookRecs));
}

#[test]
fn test_wiki_prep_unlocks_with_interests() {
    let applets = available_applets(&friend_with_interests(&["climbing"]));
    assert!(applets.contains(&AppletKind::WikiPrep));
}

#[test]
fn test_wiki_prep_does_not_unlock_with_empty_interests() {
    let applets = available_applets(&bare_friend());
    assert!(!applets.contains(&AppletKind::WikiPrep));
}

#[test]
fn test_all_three_applets_unlock_together() {
    let mut f = friend_with_job("Engineer");
    f.book_profile = Some(BookProfile { genres: vec!["sci-fi".to_string()], authors: vec![] });
    f.interests = vec!["climbing".to_string()];

    let applets = available_applets(&f);
    assert_eq!(applets.len(), 3);
    assert!(applets.contains(&AppletKind::JobFeed));
    assert!(applets.contains(&AppletKind::BookRecs));
    assert!(applets.contains(&AppletKind::WikiPrep));
}

#[test]
fn test_applet_labels_are_correct() {
    assert_eq!(AppletKind::JobFeed.label(), "Job Feed");
    assert_eq!(AppletKind::BookRecs.label(), "Book Recs");
    assert_eq!(AppletKind::WikiPrep.label(), "Conversation Prep");
}

#[test]
fn test_job_feed_no_book_profile_present() {
    let applets = available_applets(&friend_with_job("Engineer"));
    assert!(!applets.contains(&AppletKind::BookRecs));
    assert!(!applets.contains(&AppletKind::WikiPrep));
}

#[test]
fn test_is_unlocked_with_role() {
    assert!(JobFeedApplet.is_unlocked(&job_profile("Engineer")));
}

#[test]
fn test_is_unlocked_empty_role() {
    assert!(!JobFeedApplet.is_unlocked(&job_profile("")));
}

#[test]
fn test_is_unlocked_missing_role() {
    assert!(!JobFeedApplet.is_unlocked(&Profile::new()));
}

#[test]
fn test_fields_contains_required_desired_role() {
    let fields = JobFeedApplet.fields();
    let role_field = fields.iter().find(|f| f.key == "desired_role").unwrap();
    assert!(role_field.required);
}

#[test]
fn job_feed_test_key_and_name() {
    assert_eq!(JobFeedApplet.key(), "job_feed");
    assert_eq!(JobFeedApplet.name(), "Job Feed");
}

#[test]
fn test_is_unlocked_with_genres() {
    assert!(BookRecsApplet.is_unlocked(&book_profile("sci-fi", "")));
}

#[test]
fn test_is_unlocked_with_authors_only() {
    assert!(BookRecsApplet.is_unlocked(&book_profile("", "Le Guin")));
}

#[test]
fn test_is_unlocked_both_empty() {
    assert!(!BookRecsApplet.is_unlocked(&book_profile("", "")));
}

#[test]
fn test_is_unlocked_missing_keys() {
    assert!(!BookRecsApplet.is_unlocked(&Profile::new()));
}

#[test]
fn book_recs_test_key_and_name() {
    assert_eq!(BookRecsApplet.key(), "book_recs");
    assert_eq!(BookRecsApplet.name(), "Book Recs");
}

#[test]
fn test_is_unlocked_with_interests() {
    assert!(WikiPrepApplet.is_unlocked(&interests_profile("climbing, jazz")));
}

#[test]
fn test_is_unlocked_empty_interests() {
    assert!(!WikiPrepApplet.is_unlocked(&interests_profile("")));
}

#[test]
fn test_is_unlocked_missing_key() {
    assert!(!WikiPrepApplet.is_unlocked(&Profile::new()));
}

#[test]
fn wiki_prep_test_key_and_name() {
    assert_eq!(WikiPrepApplet.key(), "wiki_prep");
    assert_eq!(WikiPrepApplet.name(), "Conversation Prep");
}

#[test]
fn blank_csv_items_do_not_unlock() {
    assert!(!WikiPrepApplet.is_unlocked(&interests_profile(" , ,, ")));
    assert!(!BookRecsApplet.is_unlocked(&book_profile(",", "  ")));
    assert!(!JobFeedApplet.is_unlocked(&job_profile("   ")));
}

#[test]
fn registry_lookup_and_order() {
    let r = build_registry();
    assert_eq!(
        r.all().clone(),
        vec![
            AppletKind::JobFeed,
            AppletKind::BookRecs,
            AppletKind::WikiPrep,
            AppletKind::Birthday,
            AppletKind::Discord,
        ]
    );
    assert_eq!(r.by_key("discord"), Some(AppletKind::Discord));
    assert_eq!(r.by_key("nope"), None);
    assert_eq!(AppletKind::from_key("wiki_prep"), Some(AppletKind::WikiPrep));
    assert_eq!(AppletKind::from_key("Wiki_prep"), None);
    assert_eq!(AppletKind::Birthday.name(), "Birthday Tracker");
}

#[test]
fn available_for_includes_extra_applets_in_order() {
    let mut f = friend_with_interests(&["chess"]);
    let mut p = Profile::new();
    p.insert("discord_user_id".to_string(), "42".to_string());
    f.set_profile("discord", p);
    let mut b = Profile::new();
    b.insert("birthday".to_string(), "2001-02-03".to_string());
    f.set_profile("birthday", b);
    assert_eq!(
        build_registry().available_for(&f),
        vec![AppletKind::WikiPrep, AppletKind::Birthday, AppletKind::Discord]
    );
    assert_eq!(available_applets(&f), vec![AppletKind::WikiPrep]);
}

#[test]
fn typed_fields_unlock_without_trimming() {
    let f = friend_with_job(" ");
    assert_eq!(available_applets(&f), vec![AppletKind::JobFeed]);
    assert!(build_registry().available_for(&f).is_empty());
    let g = friend_with_books(&[""], &[]);
    assert_eq!(available_applets(&g), vec![AppletKind::BookRecs]);
    let h = friend_with_interests(&[" "]);
    assert_eq!(available_applets(&h), vec![AppletKind::WikiPrep]);
    let mut all = friend_with_job("x");
    all.book_profile = Some(BookProfile { genres: vec![], authors: vec!["a".to_string()] });
    all.interests = vec!["b".to_string()];
    assert_eq!(
        available_applets(&all),
        vec![AppletKind::JobFeed, AppletKind::BookRecs, AppletKind::WikiPrep]
    );
}
