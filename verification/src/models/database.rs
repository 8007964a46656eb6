//! The vault: one root group with all that is below it, and what is known of
//! the vault as a whole.

use crate::models::entry::Entry;
use crate::models::group::{lemma_path_leads, Group, GroupView};
use crate::models::keyed::{has_key, lemma_index_of, position};
use crate::models::text::{same_text, texts};
use crate::models::timestamp::{now, Timestamp};
use vstd::prelude::*;

verus! {

/// What is known of a vault as a whole.
#[derive(Debug)]
pub struct DatabaseMetadata {
    pub name: String,
    pub description: String,
    pub created_at: Timestamp,
    pub updated_at: Timestamp,
    /// The version of the program that made the vault.
    pub version: String,
}

/// A `DatabaseMetadata` as a mathematical value.
pub struct DatabaseMetadataView {
    pub name: Seq<char>,
    pub description: Seq<char>,
    pub created_at: Timestamp,
    pub updated_at: Timestamp,
    pub version: Seq<char>,
}

impl View for DatabaseMetadata {
    type V = DatabaseMetadataView;

    open spec fn view(&self) -> DatabaseMetadataView {
        DatabaseMetadataView {
            name: self.name@,
            description: self.description@,
            created_at: self.created_at,
            updated_at: self.updated_at,
            version: self.version@,
        }
    }
}

impl Clone for DatabaseMetadata {
    /// A copy with the same fields.
    fn clone(&self) -> (copy: DatabaseMetadata)
        ensures
            copy@ == self@,
    {
        DatabaseMetadata {
            name: self.name.clone(),
            description: self.description.clone(),
            created_at: self.created_at,
            updated_at: self.updated_at,
            version: self.version.clone(),
        }
    }
}

/// A vault: its metadata and its root group, which has no parent.
#[derive(Debug)]
pub struct Database {
    pub metadata: DatabaseMetadata,
    pub root_group: Group,
    /// Whether the vault was changed since it was last stored. The flag is
    /// never stored with the vault.
    pub is_modified: bool,
}

/// A `Database` as a mathematical value.
pub struct DatabaseView {
    pub metadata: DatabaseMetadataView,
    pub root_group: GroupView,
    pub is_modified: bool,
}

impl View for Database {
    type V = DatabaseView;

    open spec fn view(&self) -> DatabaseView {
        DatabaseView {
            metadata: self.metadata@,
            root_group: self.root_group@,
            is_modified: self.is_modified,
        }
    }
}

impl Clone for Database {
    /// A copy of the vault with copies of all that is in it.
    fn clone(&self) -> (copy: Database)
        ensures
            copy@ == self@,
    {
        Database {
            metadata: self.metadata.clone(),
            root_group: self.root_group.clone(),
            is_modified: self.is_modified,
        }
    }
}

/// A path is copied text by text.
fn copy_path(path: &Vec<String>) -> (copy: Vec<String>)
    ensures
        texts(copy@) == texts(path@),
{
    let mut copy: Vec<String> = Vec::new();
    let mut i: usize = 0;
    while i < path.len()
        invariant
            i <= path@.len(),
            texts(copy@) == texts(path@.take(i as int)),
        decreases path@.len() - i,
    {
        let ghost before = copy@;
        let text = path[i].clone();
        copy.push(text);
        proof {
            assert(path@.take(i + 1) =~= path@.take(i as int).push(path@[i as int]));
            assert(texts(before.push(text)) =~= texts(before).push(text@));
            assert(texts(path@.take(i as int).push(path@[i as int])) =~= texts(
                path@.take(i as int),
            ).push(path@[i as int]@));
        }
        i += 1;
    }
    assert(path@.take(path@.len() as int) =~= path@);
    copy
}

impl Database {
    /// Whether no group of the vault holds two entries or two subgroups
    /// under the same identifier.
    pub open spec fn wf(&self) -> bool {
        self.root_group.wf()
    }

    /// The entry under `id` in the vault.
    pub open spec fn spec_find_entry(&self, id: Seq<char>) -> Option<Entry> {
        self.root_group.spec_find_entry(id)
    }

    /// The group under `id` in the vault: the root group if that is its
    /// identifier, else the group below the root group.
    pub open spec fn spec_find_group(&self, id: Seq<char>) -> Option<Group> {
        if self.root_group.id@ == id {
            Some(self.root_group)
        } else {
            self.root_group.spec_find_group(id)
        }
    }

    /// Whether no group of the vault holds two entries or two subgroups
    /// under the same identifier.
    pub fn is_wf(&self) -> (valid: bool)
        ensures
            valid == self.wf(),
    {
        self.root_group.is_wf()
    }

    /// A new vault with the given name and description: an empty root group
    /// named `Root`, the current time as both of its timestamps, and the
    /// flag set that says it was changed.
    pub fn new(name: String, description: String) -> (db: Database)
        ensures
            db.metadata.name == name,
            db.metadata.description == description,
            db.metadata.created_at == db.metadata.updated_at,
            db.metadata.version@ == "0.1.0"@,
            db.root_group.name@ == "Root"@,
            db.root_group.parent_id is None,
            db.root_group.entries@.len() == 0,
            db.root_group.subgroups@.len() == 0,
            db.is_modified,
            db.wf(),
    {
        let created = now();
        Database::with_root(name, description, Group::new("Root".to_owned(), None), created)
    }

    /// The vault with the given name, description and root group, `created`
    /// as both of its timestamps, and the flag set that says it was changed.
    pub fn with_root(name: String, description: String, root_group: Group, created: Timestamp) -> (db:
        Database)
        ensures
            db.metadata.name == name,
            db.metadata.description == description,
            db.metadata.created_at == created,
            db.metadata.updated_at == created,
            db.metadata.version@ == "0.1.0"@,
            db.root_group == root_group,
            db.is_modified,
    {
        Database {
            metadata: DatabaseMetadata {
                name,
                description,
                created_at: created,
                updated_at: created,
                version: "0.1.0".to_owned(),
            },
            root_group,
            is_modified: true,
        }
    }

    /// Finds the entry under `entry_id` anywhere in the vault.
    pub fn find_entry<'a>(&'a self, entry_id: &str) -> (found: Option<&'a Entry>)
        ensures
            match found {
                Some(entry) => self.spec_find_entry(entry_id@) == Some(*entry),
                None => self.spec_find_entry(entry_id@) is None,
            },
    {
        Self::find_entry_in_group(&self.root_group, entry_id)
    }

    /// Finds the entry under `entry_id` in a group or below it: the entries
    /// of the group are looked at first, then its subgroups, one after the
    /// other and each with all that is below it.
    pub fn find_entry_in_group<'a>(group: &'a Group, entry_id: &str) -> (found: Option<&'a Entry>)
        ensures
            match found {
                Some(entry) => group.spec_find_entry(entry_id@) == Some(*entry),
                None => group.spec_find_entry(entry_id@) is None,
            },
        decreases group,
    {
        match position(&group.entries, entry_id) {
            Some(i) => {
                return Some(&group.entries[i].1);
            },
            None => {},
        }
        let n = group.subgroups.len();
        let mut i: usize = 0;
        while i < n
            invariant
                n == group.subgroups@.len(),
                i <= n,
                group.spec_find_entry(entry_id@) == group.find_entry_from(entry_id@, i as nat),
            decreases n - i,
        {
            match Self::find_entry_in_group(&group.subgroups[i].1, entry_id) {
                Some(entry) => {
                    return Some(entry);
                },
                None => {},
            }
            i += 1;
        }
        None
    }

    /// Finds the group under `group_id` anywhere in the vault, the root
    /// group included.
    pub fn find_group<'a>(&'a self, group_id: &str) -> (found: Option<&'a Group>)
        ensures
            match found {
                Some(group) => self.spec_find_group(group_id@) == Some(*group),
                None => self.spec_find_group(group_id@) is None,
            },
    {
        if same_text(self.root_group.id.as_str(), group_id) {
            return Some(&self.root_group);
        }
        Self::find_group_in_group(&self.root_group, group_id)
    }

    /// Finds the group under `group_id` below a group: its subgroups are
    /// looked at first, then what is below each of them, one after the
    /// other.
    pub fn find_group_in_group<'a>(group: &'a Group, group_id: &str) -> (found: Option<&'a Group>)
        ensures
            match found {
                Some(below) => group.spec_find_group(group_id@) == Some(*below),
                None => group.spec_find_group(group_id@) is None,
            },
        decreases group,
    {
        match position(&group.subgroups, group_id) {
            Some(i) => {
                return Some(&group.subgroups[i].1);
            },
            None => {},
        }
        let n = group.subgroups.len();
        let mut i: usize = 0;
        while i < n
            invariant
                n == group.subgroups@.len(),
                i <= n,
                group.spec_find_group(group_id@) == group.find_group_from(group_id@, i as nat),
            decreases n - i,
        {
            match Self::find_group_in_group(&group.subgroups[i].1, group_id) {
                Some(below) => {
                    return Some(below);
                },
                None => {},
            }
            i += 1;
        }
        None
    }

    /// Finds the way down from a group to the group under `target_id`: the
    /// identifiers under which one goes down, appended to `path`.
    pub fn find_path_to_group(group: &Group, target_id: &str, path: Vec<String>) -> (found: Option<
        Vec<String>,
    >)
        ensures
            match found {
                Some(whole) => group.spec_path_to(target_id@) matches Some(way) && texts(whole@)
                    == texts(path@) + way,
                None => group.spec_path_to(target_id@) is None,
            },
        decreases group,
    {
        match position(&group.subgroups, target_id) {
            Some(_) => {
                let mut whole = path;
                whole.push(target_id.to_owned());
                assert(texts(whole@) =~= texts(path@) + seq![target_id@]);
                return Some(whole);
            },
            None => {},
        }
        let n = group.subgroups.len();
        let mut i: usize = 0;
        while i < n
            invariant
                n == group.subgroups@.len(),
                i <= n,
                !has_key(group.subgroups@, target_id@),
                group.spec_path_to(target_id@) == group.path_from(target_id@, i as nat),
            decreases n - i,
        {
            let mut longer = copy_path(&path);
            longer.push(group.subgroups[i].0.clone());
            assert(texts(longer@) =~= texts(path@) + seq![group.subgroups@[i as int].0@]);
            match Self::find_path_to_group(&group.subgroups[i].1, target_id, longer) {
                Some(whole) => {
                    proof {
                        let way = group.subgroups@[i as int].1.spec_path_to(target_id@).unwrap();
                        assert(texts(whole@) =~= texts(path@) + (seq![
                            group.subgroups@[i as int].0@,
                        ] + way));
                    }
                    return Some(whole);
                },
                None => {},
            }
            i += 1;
        }
        None
    }

    /// Goes down from a group by the identifiers of `path` from the place
    /// `at` on, with one exclusive handle at a time, and hands out the group
    /// at the end. The way must lead to a group.
    fn walk<'a>(group: &'a mut Group, path: &Vec<String>, at: usize) -> (node: &'a mut Group)
        requires
            at <= path@.len(),
            old(group).node_at(texts(path@).skip(at as int)) is Some,
        ensures
            Some(*node) == old(group).node_at(texts(path@).skip(at as int)),
            old(group).replaced_at(final(group), texts(path@).skip(at as int), *final(node)),
        decreases path@.len() - at,
    {
        let ghost way = texts(path@).skip(at as int);
        if at == path.len() {
            return group;
        }
        proof {
            assert(way[0] == path@[at as int]@);
            assert(way.drop_first() =~= texts(path@).skip(at + 1));
            lemma_index_of(group.subgroups@, way[0]);
        }
        match position(&group.subgroups, path[at].as_str()) {
            Some(i) => Self::walk(&mut group.subgroups[i].1, path, at + 1),
            None => vstd::pervasive::unreached(),
        }
    }

    /// Finds the group under `group_id` anywhere in the vault, the root
    /// group included, and hands it out to be changed in its place. The way
    /// to the group is looked for first, without touching anything; then it
    /// is gone down with one exclusive handle at a time. The group that is
    /// handed out is the one that `find_group` finds, and whatever is done
    /// to it is done to that group of the vault and to nothing else.
    pub fn find_group_mut(&mut self, group_id: &str) -> (found: Option<&mut Group>)
        requires
            old(self).wf(),
        ensures
            match found {
                Some(group) => {
                    &&& old(self).spec_find_group(group_id@) == Some(*group)
                    &&& exists|path: Seq<Seq<char>>|
                        old(self).root_group.node_at(path) == Some(*group) && old(
                            self,
                        ).root_group.replaced_at(&final(self).root_group, path, *final(group))
                    &&& final(self).metadata == old(self).metadata
                    &&& final(self).is_modified == old(self).is_modified
                },
                None => old(self).spec_find_group(group_id@) is None && *final(self) == *old(self),
            },
    {
        if same_text(self.root_group.id.as_str(), group_id) {
            let ghost none = Seq::<Seq<char>>::empty();
            let group = &mut self.root_group;
            assert(old(self).root_group.node_at(none) == Some(*group));
            return Some(group);
        }
        proof {
            lemma_path_leads(&self.root_group, group_id@);
        }
        let path = match Self::find_path_to_group(&self.root_group, group_id, Vec::new()) {
            Some(path) => path,
            None => {
                return None;
            },
        };
        assert(texts(path@) =~= self.root_group.spec_path_to(group_id@).unwrap());
        assert(texts(path@).skip(0) =~= texts(path@));
        let group = Self::walk(&mut self.root_group, &path, 0);
        Some(group)
    }

    /// Sets the flag that says the vault was changed, and refreshes the
    /// vault's time of last change from the clock. Nothing else changes: a
    /// change below the root group shows in the vault only when this is
    /// called.
    pub fn mark_as_modified(&mut self)
        ensures
            final(self).is_modified,
            final(self).root_group == old(self).root_group,
            final(self).metadata.name == old(self).metadata.name,
            final(self).metadata.description == old(self).metadata.description,
            final(self).metadata.created_at == old(self).metadata.created_at,
            final(self).metadata.version == old(self).metadata.version,
    {
        self.mark_as_modified_at(now());
    }

    /// Sets the flag that says the vault was changed, and makes `at` the
    /// vault's time of last change. Nothing else changes.
    pub fn mark_as_modified_at(&mut self, at: Timestamp)
        ensures
            final(self).is_modified,
            final(self).metadata.updated_at == at,
            final(self).root_group == old(self).root_group,
            final(self).metadata.name == old(self).metadata.name,
            final(self).metadata.description == old(self).metadata.description,
            final(self).metadata.created_at == old(self).metadata.created_at,
            final(self).metadata.version == old(self).metadata.version,
    {
        self.is_modified = true;
        self.metadata.updated_at = at;
    }
}

} // verus!
