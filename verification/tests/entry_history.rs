use keeprust::models::entry::{Entry, PasswordHistory};
use keeprust::models::timestamp::Timestamp;

fn entry_with_password(password: &str) -> Entry {
    Entry::new(
        "Gmail".to_string(),
        "me@gmail.com".to_string(),
        password.to_string(),
        String::new(),
        String::new(),
    )
}

fn history_of(e: &Entry) -> Vec<String> {
    e.password_history.iter().map(|h| h.password.clone()).collect()
}

#[test]
fn new_entry_has_an_empty_history() {
    let e = entry_with_password("x1!aZ9qT");
    assert_eq!(e.title, "Gmail");
    assert_eq!(e.username, "me@gmail.com");
    assert_eq!(e.password, "x1!aZ9qT");
    assert_eq!(e.url, "");
    assert_eq!(e.notes, "");
    assert!(e.password_history.is_empty());
    assert_eq!(e.created_at, e.updated_at);
    assert_eq!(e.id.len(), 36);
}

#[test]
fn new_entries_have_their_own_identifiers() {
    assert_ne!(entry_with_password("a").id, entry_with_password("a").id);
}

#[test]
fn entry_with_a_given_identifier() {
    let at = Timestamp::new(1_700_000_000, 5);
    let e = Entry::with_id(
        "E1".to_string(),
        "Gmail".to_string(),
        "me@gmail.com".to_string(),
        "x1!aZ9qT".to_string(),
        "https://mail.google.com".to_string(),
        "notes".to_string(),
        at,
    );
    assert_eq!(e.id, "E1");
    assert_eq!(e.url, "https://mail.google.com");
    assert_eq!(e.notes, "notes");
    assert_eq!(e.created_at, at);
    assert_eq!(e.updated_at, at);
    assert!(e.password_history.is_empty());
}

#[test]
fn three_changes_leave_three_items_most_recent_first() {
    let mut e = entry_with_password("x1!aZ9qT");
    e.update(None, None, Some("second".to_string()), None, None);
    e.update(None, None, Some("third".to_string()), None, None);
    e.update(None, None, Some("fourth".to_string()), None, None);
    assert_eq!(e.password, "fourth");
    assert_eq!(history_of(&e), vec!["third", "second", "x1!aZ9qT"]);
}

#[test]
fn the_history_keeps_the_ten_most_recent_passwords() {
    let mut e = entry_with_password("word0");
    for i in 1..=11 {
        e.update(None, None, Some(format!("word{}", i)), None, None);
    }
    assert_eq!(e.password, "word11");
    assert_eq!(
        history_of(&e),
        vec!["word10", "word9", "word8", "word7", "word6", "word5", "word4", "word3", "word2", "word1"]
    );
    for i in 12..=30 {
        e.update(None, None, Some(format!("word{}", i)), None, None);
        assert_eq!(e.password_history.len(), 10);
    }
    assert_eq!(
        history_of(&e),
        vec!["word29", "word28", "word27", "word26", "word25", "word24", "word23", "word22", "word21", "word20"]
    );
}

#[test]
fn ten_changes_fill_the_history() {
    let mut e = entry_with_password("word0");
    for i in 1..=10 {
        e.update(None, None, Some(format!("word{}", i)), None, None);
    }
    assert_eq!(
        history_of(&e),
        vec!["word9", "word8", "word7", "word6", "word5", "word4", "word3", "word2", "word1", "word0"]
    );
}

#[test]
fn an_empty_password_is_not_recorded() {
    let mut e = entry_with_password("");
    e.update(None, None, Some("first".to_string()), None, None);
    assert_eq!(e.password, "first");
    assert!(e.password_history.is_empty());
    e.update(None, None, Some(String::new()), None, None);
    assert_eq!(e.password, "");
    assert_eq!(history_of(&e), vec!["first"]);
    e.update(None, None, Some("third".to_string()), None, None);
    assert_eq!(history_of(&e), vec!["first"]);
}

#[test]
fn the_same_password_again_is_recorded() {
    let mut e = entry_with_password("same");
    e.update(None, None, Some("same".to_string()), None, None);
    assert_eq!(e.password, "same");
    assert_eq!(history_of(&e), vec!["same"]);
}

#[test]
fn update_replaces_what_is_given_and_keeps_the_rest() {
    let mut e = entry_with_password("x1!aZ9qT");
    let id = e.id.clone();
    let created = e.created_at;
    e.update(Some("Mail".to_string()), None, None, Some("https://mail".to_string()), None);
    assert_eq!(e.id, id);
    assert_eq!(e.title, "Mail");
    assert_eq!(e.username, "me@gmail.com");
    assert_eq!(e.password, "x1!aZ9qT");
    assert_eq!(e.url, "https://mail");
    assert_eq!(e.notes, "");
    assert!(e.password_history.is_empty());
    assert_eq!(e.created_at, created);
    e.update(None, Some("you@gmail.com".to_string()), None, None, Some("work".to_string()));
    assert_eq!(e.title, "Mail");
    assert_eq!(e.username, "you@gmail.com");
    assert_eq!(e.url, "https://mail");
    assert_eq!(e.notes, "work");
}

#[test]
fn update_at_records_the_times_given() {
    let created = Timestamp::new(100, 0);
    let mut e = Entry::with_id(
        "E1".to_string(),
        "Gmail".to_string(),
        "me".to_string(),
        "old".to_string(),
        String::new(),
        String::new(),
        created,
    );
    e.update_at(
        None,
        None,
        Some("new".to_string()),
        None,
        None,
        Timestamp::new(200, 1),
        Timestamp::new(200, 2),
    );
    assert_eq!(e.password, "new");
    assert_eq!(e.password_history.len(), 1);
    assert_eq!(e.password_history[0].password, "old");
    assert_eq!(e.password_history[0].changed_at, Timestamp::new(200, 1));
    assert_eq!(e.created_at, created);
    assert_eq!(e.updated_at, Timestamp::new(200, 2));
    e.update_at(None, None, None, None, None, Timestamp::new(300, 1), Timestamp::new(300, 2));
    assert_eq!(e.password, "new");
    assert_eq!(e.password_history.len(), 1);
    assert_eq!(e.updated_at, Timestamp::new(300, 2));
}

#[test]
fn update_refreshes_the_time_of_last_change() {
    let created = Timestamp::new(100, 0);
    let mut e = Entry::with_id(
        "E1".to_string(),
        "Gmail".to_string(),
        "me".to_string(),
        "old".to_string(),
        String::new(),
        String::new(),
        created,
    );
    e.update(None, None, None, None, None);
    assert_eq!(e.created_at, created);
    assert_ne!(e.updated_at, created);
    assert!(e.updated_at.secs > 1_600_000_000);
}

#[test]
fn a_history_over_its_capacity_loses_one_item_per_change() {
    let mut e = entry_with_password("now");
    for i in 0..12 {
        e.password_history.push_back(PasswordHistory {
            password: format!("h{}", i),
            changed_at: Timestamp::new(i, 0),
        });
    }
    e.update(None, None, Some("next".to_string()), None, None);
    assert_eq!(e.password_history.len(), 12);
    assert_eq!(e.password_history[0].password, "now");
    assert_eq!(e.password_history[11].password, "h10");
}

#[test]
fn used_passwords_are_the_current_one_and_the_history() {
    let mut e = entry_with_password("first");
    assert!(e.has_used_password("first"));
    assert!(!e.has_used_password("second"));
    assert!(!e.has_used_password("First"));
    assert!(!e.has_used_password(""));
    e.update(None, None, Some("second".to_string()), None, None);
    e.update(None, None, Some("third".to_string()), None, None);
    assert!(e.has_used_password("first"));
    assert!(e.has_used_password("second"));
    assert!(e.has_used_password("third"));
    assert!(!e.has_used_password("fourth"));
}

#[test]
fn an_evicted_password_is_no_longer_a_used_one() {
    let mut e = entry_with_password("word0");
    for i in 1..=11 {
        e.update(None, None, Some(format!("word{}", i)), None, None);
    }
    assert!(!e.has_used_password("word0"));
    assert!(e.has_used_password("word1"));
    assert!(e.has_used_password("word11"));
}

#[test]
fn clearing_the_password_leaves_it_empty() {
    let mut e = entry_with_password("x1!aZ9qT");
    e.update(None, None, Some("second".to_string()), None, None);
    e.clear_password();
    assert_eq!(e.password, "");
    assert_eq!(history_of(&e), vec!["x1!aZ9qT"]);
    assert_eq!(e.title, "Gmail");
}

#[test]
fn clearing_the_history_leaves_it_empty() {
    let mut e = entry_with_password("x1!aZ9qT");
    e.update(None, None, Some("second".to_string()), None, None);
    e.update(None, None, Some("third".to_string()), None, None);
    e.clear_password_history();
    assert!(e.password_history.is_empty());
    assert_eq!(e.password, "third");
    assert!(!e.has_used_password("second"));
}

#[test]
fn a_copy_of_an_entry_keeps_its_secrets() {
    let mut e = entry_with_password("x1!aZ9qT");
    e.update(None, None, Some("second".to_string()), None, None);
    let copy = e.clone();
    drop(e);
    assert_eq!(copy.password, "second");
    assert_eq!(history_of(&copy), vec!["x1!aZ9qT"]);
}
