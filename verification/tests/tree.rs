use keeprust::models::database::Database;
use keeprust::models::entry::Entry;
use keeprust::models::group::Group;
use keeprust::crypto::cipher::EncryptedData;
use keeprust::models::keyed::{has_distinct_keys, insert, position, take};
use keeprust::models::repository::{FileHeader, Repository, RepositoryError};
use keeprust::models::timestamp::Timestamp;

fn group(id: &str, name: &str) -> Group {
    let mut g = Group::new(name.to_string(), None);
    g.id = id.to_string();
    g
}

fn entry(id: &str, title: &str) -> Entry {
    Entry::with_id(
        id.to_string(),
        title.to_string(),
        format!("{}@example.org", title),
        "secret".to_string(),
        String::new(),
        String::new(),
        Timestamp::new(1, 0),
    )
}

/// Root ── A ── A1 ── A11
///      │    └─ A2
///      └─ B ── B1
fn sample() -> Database {
    let mut db = Database::new("Vault".to_string(), "".to_string());
    db.root_group.id = "R".to_string();
    let mut a = group("A", "a");
    let mut a1 = group("A1", "a1");
    let mut a11 = group("A11", "a11");
    a11.add_entry(entry("E-A11", "deep"));
    a1.add_subgroup(a11);
    a1.add_entry(entry("E-A1", "middle"));
    a.add_subgroup(a1);
    a.add_subgroup(group("A2", "a2"));
    let mut b = group("B", "b");
    let mut b1 = group("B1", "b1");
    b1.add_entry(entry("E-B1", "other"));
    b.add_subgroup(b1);
    db.root_group.add_subgroup(a);
    db.root_group.add_subgroup(b);
    db.root_group.add_entry(entry("E-R", "top"));
    db
}

#[test]
fn a_new_vault_is_empty_and_changed() {
    let db = Database::new("Vault".to_string(), "mine".to_string());
    assert_eq!(db.metadata.name, "Vault");
    assert_eq!(db.metadata.description, "mine");
    assert_eq!(db.metadata.version, "0.1.0");
    assert_eq!(db.metadata.created_at, db.metadata.updated_at);
    assert_eq!(db.root_group.name, "Root");
    assert!(db.root_group.parent_id.is_none());
    assert!(db.root_group.entries.is_empty());
    assert!(db.root_group.subgroups.is_empty());
    assert!(db.is_modified);
}

#[test]
fn a_new_group_is_empty() {
    let g = Group::new("Email".to_string(), Some("R".to_string()));
    assert_eq!(g.name, "Email");
    assert_eq!(g.parent_id, Some("R".to_string()));
    assert!(g.entries.is_empty());
    assert!(g.subgroups.is_empty());
    assert_eq!(g.created_at, g.updated_at);
    assert_eq!(g.id.len(), 36);
    assert_ne!(g.id, Group::new("Email".to_string(), None).id);
}

#[test]
fn entries_are_found_at_every_depth() {
    let db = sample();
    assert_eq!(db.find_entry("E-R").unwrap().title, "top");
    assert_eq!(db.find_entry("E-A1").unwrap().title, "middle");
    assert_eq!(db.find_entry("E-A11").unwrap().title, "deep");
    assert_eq!(db.find_entry("E-B1").unwrap().title, "other");
}

#[test]
fn absent_entries_are_not_found() {
    let db = sample();
    assert!(db.find_entry("E-none").is_none());
    assert!(db.find_entry("").is_none());
    assert!(db.find_entry("A1").is_none());
    assert!(db.find_entry("e-r").is_none());
    assert!(Database::new("v".to_string(), "".to_string()).find_entry("E-R").is_none());
}

#[test]
fn groups_are_found_at_every_depth() {
    let db = sample();
    assert_eq!(db.find_group("R").unwrap().name, "Root");
    assert_eq!(db.find_group("A").unwrap().name, "a");
    assert_eq!(db.find_group("A1").unwrap().name, "a1");
    assert_eq!(db.find_group("A11").unwrap().name, "a11");
    assert_eq!(db.find_group("A2").unwrap().name, "a2");
    assert_eq!(db.find_group("B").unwrap().name, "b");
    assert_eq!(db.find_group("B1").unwrap().name, "b1");
}

#[test]
fn absent_groups_are_not_found() {
    let mut db = sample();
    assert!(db.find_group("C").is_none());
    assert!(db.find_group("E-R").is_none());
    assert!(db.find_group("").is_none());
    assert!(db.find_group_mut("C").is_none());
    assert!(db.find_group_mut("E-A1").is_none());
}

#[test]
fn the_way_to_a_group_names_each_step() {
    let db = sample();
    assert_eq!(
        Database::find_path_to_group(&db.root_group, "A11", Vec::new()),
        Some(vec!["A".to_string(), "A1".to_string(), "A11".to_string()])
    );
    assert_eq!(
        Database::find_path_to_group(&db.root_group, "B", Vec::new()),
        Some(vec!["B".to_string()])
    );
    assert_eq!(
        Database::find_path_to_group(&db.root_group, "B1", vec!["R".to_string()]),
        Some(vec!["R".to_string(), "B".to_string(), "B1".to_string()])
    );
    assert_eq!(Database::find_path_to_group(&db.root_group, "R", Vec::new()), None);
    assert_eq!(Database::find_path_to_group(&db.root_group, "C", Vec::new()), None);
}

#[test]
fn a_group_to_change_is_the_group_that_is_found() {
    let mut db = sample();
    for id in ["R", "A", "A1", "A11", "A2", "B", "B1"] {
        let name = db.find_group(id).unwrap().name.clone();
        let found = db.find_group_mut(id).unwrap();
        assert_eq!(found.id, id);
        assert_eq!(found.name, name);
        found.name = format!("{} changed", name);
        assert_eq!(db.find_group(id).unwrap().name, format!("{} changed", name));
    }
}

#[test]
fn a_change_through_the_handle_touches_one_group_only() {
    let mut db = sample();
    db.find_group_mut("A1").unwrap().add_entry(entry("E-new", "new"));
    assert_eq!(db.find_entry("E-new").unwrap().title, "new");
    assert_eq!(db.find_group("A1").unwrap().entries.len(), 2);
    assert_eq!(db.find_group("A").unwrap().entries.len(), 0);
    assert_eq!(db.find_group("A11").unwrap().entries.len(), 1);
    assert_eq!(db.find_group("A2").unwrap().entries.len(), 0);
    assert_eq!(db.find_group("B1").unwrap().entries.len(), 1);
    assert_eq!(db.root_group.entries.len(), 1);
    assert_eq!(db.root_group.subgroups.len(), 2);
    assert_eq!(db.find_group("A").unwrap().subgroups.len(), 2);
}

#[test]
fn a_nested_change_does_not_mark_the_vault() {
    let mut db = sample();
    db.is_modified = false;
    let root_updated = db.root_group.updated_at;
    let vault_updated = db.metadata.updated_at;
    let a_updated = db.find_group("A").unwrap().updated_at;
    db.find_group_mut("A1").unwrap().updated_at = Timestamp::new(0, 0);
    db.find_group_mut("A1").unwrap().add_entry(entry("E-new", "new"));
    assert_ne!(db.find_group("A1").unwrap().updated_at, Timestamp::new(0, 0));
    assert!(!db.is_modified);
    assert_eq!(db.metadata.updated_at, vault_updated);
    assert_eq!(db.root_group.updated_at, root_updated);
    assert_eq!(db.find_group("A").unwrap().updated_at, a_updated);
    db.metadata.updated_at = Timestamp::new(0, 0);
    db.mark_as_modified();
    assert!(db.is_modified);
    assert_ne!(db.metadata.updated_at, Timestamp::new(0, 0));
    assert_eq!(db.root_group.updated_at, root_updated);
    assert_eq!(db.metadata.name, "Vault");
}

#[test]
fn an_entry_update_refreshes_the_entry_only() {
    let mut db = sample();
    db.is_modified = false;
    let group_updated = db.find_group("A1").unwrap().updated_at;
    let e = db.find_group_mut("A1").unwrap().get_entry_mut("E-A1").unwrap();
    assert_eq!(e.updated_at, Timestamp::new(1, 0));
    e.update(Some("renamed".to_string()), None, None, None, None);
    assert_eq!(db.find_entry("E-A1").unwrap().title, "renamed");
    assert_ne!(db.find_entry("E-A1").unwrap().updated_at, Timestamp::new(1, 0));
    assert_eq!(db.find_group("A1").unwrap().updated_at, group_updated);
    assert!(!db.is_modified);
}

#[test]
fn adding_under_the_same_identifier_replaces() {
    let mut g = group("G", "g");
    g.add_entry(entry("E1", "first"));
    g.add_entry(entry("E2", "second"));
    let added = g.add_entry(entry("E1", "third"));
    assert_eq!(added.title, "third");
    assert_eq!(g.entries.len(), 2);
    assert_eq!(g.get_entry("E1").unwrap().title, "third");
    assert_eq!(g.get_entry("E2").unwrap().title, "second");
    g.add_subgroup(group("S", "one"));
    let added = g.add_subgroup(group("S", "two"));
    assert_eq!(added.name, "two");
    assert_eq!(g.subgroups.len(), 1);
    assert_eq!(g.get_subgroup("S").unwrap().name, "two");
}

#[test]
fn entries_of_a_group_by_identifier() {
    let mut g = group("G", "g");
    g.add_entry(entry("E1", "first"));
    assert_eq!(g.get_entry("E1").unwrap().title, "first");
    assert!(g.get_entry("E2").is_none());
    assert!(g.get_entry_mut("E2").is_none());
    g.get_entry_mut("E1").unwrap().title = "changed".to_string();
    assert_eq!(g.get_entry("E1").unwrap().title, "changed");
}

#[test]
fn subgroups_of_a_group_by_identifier() {
    let mut g = group("G", "g");
    g.add_subgroup(group("S1", "one"));
    g.add_subgroup(group("S2", "two"));
    assert_eq!(g.get_subgroup("S2").unwrap().name, "two");
    assert!(g.get_subgroup("S3").is_none());
    assert!(g.get_subgroup("G").is_none());
    assert!(g.get_subgroup_mut("S3").is_none());
    g.get_subgroup_mut("S1").unwrap().name = "changed".to_string();
    assert_eq!(g.get_subgroup("S1").unwrap().name, "changed");
    assert_eq!(g.get_subgroup("S2").unwrap().name, "two");
}

#[test]
fn removing_takes_the_node_out() {
    let mut db = sample();
    let a = db.find_group_mut("A").unwrap();
    a.updated_at = Timestamp::new(0, 0);
    assert!(a.remove_subgroup("none").is_none());
    assert_eq!(a.updated_at, Timestamp::new(0, 0));
    let removed = a.remove_subgroup("A1").unwrap();
    assert_eq!(removed.name, "a1");
    assert_eq!(removed.subgroups.len(), 1);
    assert_ne!(a.updated_at, Timestamp::new(0, 0));
    assert_eq!(a.subgroups.len(), 1);
    assert!(db.find_group("A1").is_none());
    assert!(db.find_group("A11").is_none());
    assert!(db.find_entry("E-A1").is_none());
    assert!(db.find_entry("E-A11").is_none());
    assert_eq!(db.find_group("A2").unwrap().name, "a2");

    db.root_group.updated_at = Timestamp::new(0, 0);
    assert!(db.root_group.remove_entry("none").is_none());
    assert_eq!(db.root_group.updated_at, Timestamp::new(0, 0));
    let removed = db.root_group.remove_entry("E-R").unwrap();
    assert_eq!(removed.title, "top");
    assert_ne!(db.root_group.updated_at, Timestamp::new(0, 0));
    assert!(db.find_entry("E-R").is_none());
}

#[test]
fn the_parent_is_not_compared_with_the_place() {
    let mut db = sample();
    let stray = Group::new("stray".to_string(), Some("nowhere".to_string()));
    let id = stray.id.clone();
    db.find_group_mut("B").unwrap().add_subgroup(stray);
    assert_eq!(db.find_group(&id).unwrap().parent_id, Some("nowhere".to_string()));
}

#[test]
fn an_entry_of_the_group_comes_before_one_below() {
    let mut db = sample();
    db.find_group_mut("B1").unwrap().add_entry(entry("twice", "below"));
    db.find_group_mut("B").unwrap().add_entry(entry("twice", "above"));
    assert_eq!(db.find_entry("twice").unwrap().title, "above");
}

#[test]
fn a_subgroup_comes_before_a_group_further_down() {
    let mut db = sample();
    db.find_group_mut("A1").unwrap().add_subgroup(group("twice", "below"));
    db.root_group.add_subgroup(group("twice", "above"));
    assert_eq!(db.find_group("twice").unwrap().name, "above");
    assert_eq!(db.find_group_mut("twice").unwrap().name, "above");
}

#[test]
fn a_copy_of_a_vault_is_a_vault_of_its_own() {
    let db = sample();
    let mut copy = db.clone();
    copy.find_group_mut("A11").unwrap().name = "changed".to_string();
    assert_eq!(db.find_group("A11").unwrap().name, "a11");
    assert_eq!(copy.find_group("A11").unwrap().name, "changed");
    assert_eq!(copy.find_entry("E-A11").unwrap().title, "deep");
    assert_eq!(copy.metadata.name, "Vault");
}

#[test]
fn keyed_lists_hold_each_key_once() {
    let mut items: Vec<(String, u32)> = Vec::new();
    assert_eq!(insert(&mut items, "a".to_string(), 1), 0);
    assert_eq!(insert(&mut items, "b".to_string(), 2), 1);
    assert_eq!(insert(&mut items, "a".to_string(), 3), 0);
    assert_eq!(items, vec![("a".to_string(), 3), ("b".to_string(), 2)]);
    assert_eq!(position(&items, "b"), Some(1));
    assert_eq!(position(&items, "c"), None);
    assert_eq!(take(&mut items, "a"), Some(3));
    assert_eq!(take(&mut items, "a"), None);
    assert_eq!(items, vec![("b".to_string(), 2)]);
}

#[test]
fn a_tree_built_by_adding_has_distinct_identifiers() {
    let db = sample();
    assert!(db.is_wf());
    assert!(db.root_group.is_wf());
    let mut twice = sample();
    let again = group("A1", "again");
    twice.find_group_mut("A").unwrap().subgroups.push(("A1".to_string(), again));
    assert!(!twice.is_wf());
    assert!(twice.find_group("B").unwrap().is_wf());
    let mut items: Vec<(String, u32)> = vec![("a".to_string(), 1), ("b".to_string(), 2)];
    assert!(has_distinct_keys(&items));
    items.push(("a".to_string(), 3));
    assert!(!has_distinct_keys(&items));
}

#[test]
fn the_vault_of_the_scenario() {
    let mut db = Database::new("Vault".to_string(), String::new());
    let mut email = Group::new("Email".to_string(), Some(db.root_group.id.clone()));
    email.id = "G1".to_string();
    db.root_group.add_subgroup(email);
    let mut gmail = Entry::new(
        "Gmail".to_string(),
        "me@gmail.com".to_string(),
        "x1!aZ9qT".to_string(),
        String::new(),
        String::new(),
    );
    gmail.id = "E1".to_string();
    db.find_group_mut("G1").unwrap().add_entry(gmail);
    db.mark_as_modified();

    let found = db.find_entry("E1").unwrap();
    assert_eq!(found.title, "Gmail");
    assert_eq!(found.username, "me@gmail.com");
    assert_eq!(found.password, "x1!aZ9qT");

    let stored = db.find_entry("E1").unwrap();
    let payload = format!("{}\n{}", stored.title, stored.username);
    let sealed = Repository::seal_payload(payload.as_bytes(), "hunter2").unwrap();
    let file = Repository::frame(sealed.header.salt.as_bytes(), sealed.data.ciphertext.as_bytes());
    let records = Repository::parse(&file).unwrap();
    let header = FileHeader {
        salt: String::from_utf8(records.header).unwrap(),
        iterations: sealed.header.iterations,
    };
    let data = EncryptedData {
        nonce: sealed.data.nonce.clone(),
        ciphertext: String::from_utf8(records.data).unwrap(),
    };
    let loaded = Repository::open_payload(&header, &data, "hunter2").unwrap();
    let loaded = String::from_utf8(loaded).unwrap();
    let mut fields = loaded.lines();
    assert_eq!(fields.next(), Some("Gmail"));
    assert_eq!(fields.next(), Some("me@gmail.com"));
    assert!(matches!(
        Repository::open_payload(&header, &data, "wrong"),
        Err(RepositoryError::InvalidPassword)
    ));

    let e1 = db.find_group_mut("G1").unwrap().get_entry_mut("E1").unwrap();
    e1.update(None, None, Some("second".to_string()), None, None);
    e1.update(None, None, Some("third".to_string()), None, None);
    e1.update(None, None, Some("fourth".to_string()), None, None);
    let found = db.find_entry("E1").unwrap();
    assert_eq!(found.password, "fourth");
    let history: Vec<&str> = found.password_history.iter().map(|h| h.password.as_str()).collect();
    assert_eq!(history, vec!["third", "second", "x1!aZ9qT"]);
}

#[test]
fn marking_at_a_time_sets_that_time() {
    let mut db = sample();
    db.is_modified = false;
    let created = db.metadata.created_at;
    let root_updated = db.root_group.updated_at;
    db.mark_as_modified_at(Timestamp::new(77, 3));
    assert!(db.is_modified);
    assert_eq!(db.metadata.updated_at, Timestamp::new(77, 3));
    assert_eq!(db.metadata.created_at, created);
    assert_eq!(db.metadata.name, "Vault");
    assert_eq!(db.metadata.version, "0.1.0");
    assert_eq!(db.root_group.updated_at, root_updated);
    assert_eq!(db.root_group.subgroups.len(), 2);
}

#[test]
fn adding_at_a_time_sets_that_time() {
    let mut g = group("G", "g");
    let created = g.created_at;
    let added = g.add_entry_at(entry("E1", "first"), Timestamp::new(10, 1));
    assert_eq!(added.title, "first");
    assert_eq!(g.updated_at, Timestamp::new(10, 1));
    assert_eq!(g.created_at, created);
    let added = g.add_subgroup_at(group("S", "sub"), Timestamp::new(20, 2));
    assert_eq!(added.name, "sub");
    assert_eq!(g.updated_at, Timestamp::new(20, 2));
    assert_eq!(g.entries.len(), 1);
    assert_eq!(g.subgroups.len(), 1);
    assert_eq!(g.get_subgroup("S").unwrap().updated_at, g.get_subgroup("S").unwrap().created_at);
}

#[test]
fn removing_at_a_time_sets_that_time_if_something_was_removed() {
    let mut g = group("G", "g");
    g.add_entry_at(entry("E1", "first"), Timestamp::new(10, 0));
    g.add_subgroup_at(group("S", "sub"), Timestamp::new(20, 0));
    assert!(g.remove_entry_at("none", Timestamp::new(30, 0)).is_none());
    assert!(g.remove_subgroup_at("none", Timestamp::new(30, 0)).is_none());
    assert_eq!(g.updated_at, Timestamp::new(20, 0));
    assert_eq!(g.remove_entry_at("E1", Timestamp::new(40, 0)).unwrap().title, "first");
    assert_eq!(g.updated_at, Timestamp::new(40, 0));
    assert!(g.entries.is_empty());
    assert_eq!(g.remove_subgroup_at("S", Timestamp::new(50, 0)).unwrap().name, "sub");
    assert_eq!(g.updated_at, Timestamp::new(50, 0));
    assert!(g.subgroups.is_empty());
}

#[test]
fn a_group_with_a_given_identifier() {
    let g = Group::with_id(
        "G1".to_string(),
        "Email".to_string(),
        Some("R".to_string()),
        Timestamp::new(5, 6),
    );
    assert_eq!(g.id, "G1");
    assert_eq!(g.name, "Email");
    assert_eq!(g.parent_id, Some("R".to_string()));
    assert_eq!(g.created_at, Timestamp::new(5, 6));
    assert_eq!(g.updated_at, Timestamp::new(5, 6));
    assert!(g.entries.is_empty());
    assert!(g.subgroups.is_empty());
}

#[test]
fn a_vault_with_a_given_root() {
    let root = Group::with_id("R".to_string(), "Root".to_string(), None, Timestamp::new(1, 0));
    let db = Database::with_root(
        "Vault".to_string(),
        "mine".to_string(),
        root,
        Timestamp::new(2, 0),
    );
    assert_eq!(db.metadata.name, "Vault");
    assert_eq!(db.metadata.description, "mine");
    assert_eq!(db.metadata.created_at, Timestamp::new(2, 0));
    assert_eq!(db.metadata.updated_at, Timestamp::new(2, 0));
    assert_eq!(db.metadata.version, "0.1.0");
    assert_eq!(db.root_group.id, "R");
    assert!(db.is_modified);
    assert_eq!(db.find_group("R").unwrap().name, "Root");
}
