//! A folder of the credential tree: it owns its entries and its subgroups.

use crate::models::entry::{Entry, EntryView};
use crate::models::text::opt_text;
use crate::models::ident::fresh_id;
use crate::models::keyed::{
    distinct_keys, first_at, has_distinct_keys, has_key, index_of, insert, lemma_index_of, lookup,
    position, put, take, without,
};
use crate::models::timestamp::{now, Timestamp};
use vstd::prelude::*;

verus! {

/// A folder of the credential tree. A group owns its entries and its
/// subgroups by value: no node has two owners, and no group is below
/// itself.
#[derive(Debug)]
pub struct Group {
    /// The identifier under which the group is found.
    pub id: String,
    pub name: String,
    /// The entries of the group, each under its identifier.
    pub entries: Vec<(String, Entry)>,
    /// The subgroups of the group, each under its identifier.
    pub subgroups: Vec<(String, Group)>,
    /// The identifier of the group that this one was made for. It is kept
    /// for display and never compared with where the group stands.
    pub parent_id: Option<String>,
    pub created_at: Timestamp,
    pub updated_at: Timestamp,
}

/// A `Group` as a mathematical value: its fields, its entries and its
/// subgroups, each list in its order.
pub struct GroupView {
    pub id: Seq<char>,
    pub name: Seq<char>,
    pub entries: Seq<(Seq<char>, EntryView)>,
    pub subgroups: Seq<(Seq<char>, GroupView)>,
    pub parent_id: Option<Seq<char>>,
    pub created_at: Timestamp,
    pub updated_at: Timestamp,
}

impl View for Group {
    type V = GroupView;

    open spec fn view(&self) -> GroupView {
        self.content()
    }
}

impl Group {
    /// The group as a mathematical value.
    pub open spec fn content(&self) -> GroupView
        decreases self,
    {
        GroupView {
            id: self.id@,
            name: self.name@,
            entries: self.entries@.map_values(|pair: (String, Entry)| (pair.0@, pair.1@)),
            subgroups: Seq::new(
                self.subgroups@.len(),
                |i: int|
                    if 0 <= i < self.subgroups@.len() {
                        (self.subgroups@[i].0@, self.subgroups@[i].1.content())
                    } else {
                        arbitrary()
                    },
            ),
            parent_id: opt_text(self.parent_id),
            created_at: self.created_at,
            updated_at: self.updated_at,
        }
    }

    /// Whether, in this group and in every group below it, no two entries
    /// and no two subgroups stand under the same identifier.
    pub open spec fn wf(&self) -> bool
        decreases self,
    {
        &&& distinct_keys(self.entries@)
        &&& distinct_keys(self.subgroups@)
        &&& forall|i: int| 0 <= i < self.subgroups@.len() ==> (#[trigger] self.subgroups@[i]).1.wf()
    }

    /// Whether the two groups differ in nothing but their entries and their
    /// time of last change.
    pub open spec fn same_but_entries(&self, other: &Group) -> bool {
        &&& self.id == other.id
        &&& self.name == other.name
        &&& self.subgroups == other.subgroups
        &&& self.parent_id == other.parent_id
        &&& self.created_at == other.created_at
    }

    /// Whether the two groups differ in nothing but their subgroups and their
    /// time of last change.
    pub open spec fn same_but_subgroups(&self, other: &Group) -> bool {
        &&& self.id == other.id
        &&& self.name == other.name
        &&& self.entries == other.entries
        &&& self.parent_id == other.parent_id
        &&& self.created_at == other.created_at
    }

    /// The entry under `id` in this group or below it: the one of the group
    /// itself if it has one, else the one of the first subgroup that has one
    /// in it or below it.
    pub open spec fn spec_find_entry(&self, id: Seq<char>) -> Option<Entry>
        decreases self, self.subgroups@.len() + 1,
    {
        match lookup(self.entries@, id) {
            Some(entry) => Some(entry),
            None => self.find_entry_from(id, 0),
        }
    }

    /// The entry under `id` in or below the first subgroup, from the place
    /// `i` on, that has one.
    pub open spec fn find_entry_from(&self, id: Seq<char>, i: nat) -> Option<Entry>
        decreases self, self.subgroups@.len() - i,
    {
        if i >= self.subgroups@.len() {
            None
        } else {
            match self.subgroups@[i as int].1.spec_find_entry(id) {
                Some(entry) => Some(entry),
                None => self.find_entry_from(id, i + 1),
            }
        }
    }

    /// The group under `id` below this group: the subgroup under `id` if
    /// there is one, else the one below the first subgroup that has one
    /// below it.
    pub open spec fn spec_find_group(&self, id: Seq<char>) -> Option<Group>
        decreases self, self.subgroups@.len() + 1,
    {
        match lookup(self.subgroups@, id) {
            Some(group) => Some(group),
            None => self.find_group_from(id, 0),
        }
    }

    /// The group under `id` below the first subgroup, from the place `i` on,
    /// that has one below it.
    pub open spec fn find_group_from(&self, id: Seq<char>, i: nat) -> Option<Group>
        decreases self, self.subgroups@.len() - i,
    {
        if i >= self.subgroups@.len() {
            None
        } else {
            match self.subgroups@[i as int].1.spec_find_group(id) {
                Some(group) => Some(group),
                None => self.find_group_from(id, i + 1),
            }
        }
    }

    /// The identifiers under which one goes down from this group to the
    /// group under `id`, the last of them being `id`.
    pub open spec fn spec_path_to(&self, id: Seq<char>) -> Option<Seq<Seq<char>>>
        decreases self, self.subgroups@.len() + 1,
    {
        if has_key(self.subgroups@, id) {
            Some(seq![id])
        } else {
            self.path_from(id, 0)
        }
    }

    /// The path to the group under `id` through the first subgroup, from the
    /// place `i` on, that has one below it.
    pub open spec fn path_from(&self, id: Seq<char>, i: nat) -> Option<Seq<Seq<char>>>
        decreases self, self.subgroups@.len() - i,
    {
        if i >= self.subgroups@.len() {
            None
        } else {
            match self.subgroups@[i as int].1.spec_path_to(id) {
                Some(path) => Some(seq![self.subgroups@[i as int].0@] + path),
                None => self.path_from(id, i + 1),
            }
        }
    }

    /// The group that one reaches from this group by going down under the
    /// identifiers of `path`, one after the other.
    pub open spec fn node_at(&self, path: Seq<Seq<char>>) -> Option<Group>
        decreases path.len(),
    {
        if path.len() == 0 {
            Some(*self)
        } else {
            match lookup(self.subgroups@, path[0]) {
                Some(group) => group.node_at(path.drop_first()),
                None => None,
            }
        }
    }

    /// Whether `after` is `self` with the group at the end of `path` replaced
    /// by `node`, and nothing else changed.
    pub open spec fn replaced_at(&self, after: &Group, path: Seq<Seq<char>>, node: Group) -> bool
        decreases path.len(),
    {
        if path.len() == 0 {
            *after == node
        } else {
            match index_of(self.subgroups@, path[0]) {
                Some(i) => {
                    &&& self.same_but_subgroups(after)
                    &&& after.updated_at == self.updated_at
                    &&& after.subgroups@.len() == self.subgroups@.len()
                    &&& forall|j: int|
                        0 <= j < self.subgroups@.len() && j != i ==> after.subgroups@[j]
                            == self.subgroups@[j]
                    &&& after.subgroups@[i].0 == self.subgroups@[i].0
                    &&& self.subgroups@[i].1.replaced_at(
                        &after.subgroups@[i].1,
                        path.drop_first(),
                        node,
                    )
                },
                None => false,
            }
        }
    }

    /// A new group with the given name, no entries and no subgroups, a fresh
    /// random identifier and the current time as both of its timestamps.
    pub fn new(name: String, parent_id: Option<String>) -> (group: Group)
        ensures
            group.name == name,
            group.parent_id == parent_id,
            group.entries@.len() == 0,
            group.subgroups@.len() == 0,
            group.created_at == group.updated_at,
            group.wf(),
    {
        let created = now();
        Group::with_id(fresh_id(), name, parent_id, created)
    }

    /// The group with the given identifier and name, no entries and no
    /// subgroups, and `created` as both of its timestamps.
    pub fn with_id(id: String, name: String, parent_id: Option<String>, created: Timestamp) -> (group:
        Group)
        ensures
            group.id == id,
            group.name == name,
            group.parent_id == parent_id,
            group.entries@.len() == 0,
            group.subgroups@.len() == 0,
            group.created_at == created,
            group.updated_at == created,
            group.wf(),
    {
        Group {
            id,
            name,
            entries: Vec::new(),
            subgroups: Vec::new(),
            parent_id,
            created_at: created,
            updated_at: created,
        }
    }

    /// Whether, in this group and in every group below it, no two entries
    /// and no two subgroups stand under the same identifier.
    pub fn is_wf(&self) -> (valid: bool)
        ensures
            valid == self.wf(),
        decreases self,
    {
        if !has_distinct_keys(&self.entries) || !has_distinct_keys(&self.subgroups) {
            return false;
        }
        let n = self.subgroups.len();
        let mut i: usize = 0;
        while i < n
            invariant
                n == self.subgroups@.len(),
                i <= n,
                distinct_keys(self.entries@),
                distinct_keys(self.subgroups@),
                forall|j: int| 0 <= j < i ==> (#[trigger] self.subgroups@[j]).1.wf(),
            decreases n - i,
        {
            if !self.subgroups[i].1.is_wf() {
                assert(!self.subgroups@[i as int].1.wf());
                return false;
            }
            i += 1;
        }
        true
    }

    /// Puts an entry into the group under its identifier, in the place of
    /// the entry that was there, and refreshes the group's time of last
    /// change from the clock. Returns the entry as it stands in the group.
    pub fn add_entry(&mut self, entry: Entry) -> (added: &Entry)
        ensures
            *added == entry,
            final(self).entries@ == put(old(self).entries@, entry.id, entry),
            lookup(final(self).entries@, entry.id@) == Some(entry),
            old(self).same_but_entries(final(self)),
            old(self).wf() ==> final(self).wf(),
    {
        self.add_entry_at(entry, now())
    }

    /// Puts an entry into the group under its identifier, in the place of
    /// the entry that was there, and makes `at` the group's time of last
    /// change. Returns the entry as it stands in the group.
    pub fn add_entry_at(&mut self, entry: Entry, at: Timestamp) -> (added: &Entry)
        ensures
            *added == entry,
            final(self).entries@ == put(old(self).entries@, entry.id, entry),
            lookup(final(self).entries@, entry.id@) == Some(entry),
            final(self).updated_at == at,
            old(self).same_but_entries(final(self)),
            old(self).wf() ==> final(self).wf(),
    {
        let id = entry.id.clone();
        proof {
            crate::models::keyed::lemma_put(self.entries@, id, entry, id@);
        }
        let place = insert(&mut self.entries, id, entry);
        self.updated_at = at;
        &self.entries[place].1
    }

    /// Puts a group into this group under its identifier, in the place of
    /// the subgroup that was there, and refreshes this group's time of last
    /// change from the clock. Returns the subgroup as it stands in the
    /// group.
    pub fn add_subgroup(&mut self, group: Group) -> (added: &Group)
        ensures
            *added == group,
            final(self).subgroups@ == put(old(self).subgroups@, group.id, group),
            lookup(final(self).subgroups@, group.id@) == Some(group),
            old(self).same_but_subgroups(final(self)),
            old(self).wf() && group.wf() ==> final(self).wf(),
    {
        self.add_subgroup_at(group, now())
    }

    /// Puts a group into this group under its identifier, in the place of
    /// the subgroup that was there, and makes `at` this group's time of last
    /// change. Returns the subgroup as it stands in the group.
    pub fn add_subgroup_at(&mut self, group: Group, at: Timestamp) -> (added: &Group)
        ensures
            *added == group,
            final(self).subgroups@ == put(old(self).subgroups@, group.id, group),
            lookup(final(self).subgroups@, group.id@) == Some(group),
            final(self).updated_at == at,
            old(self).same_but_subgroups(final(self)),
            old(self).wf() && group.wf() ==> final(self).wf(),
    {
        let id = group.id.clone();
        proof {
            crate::models::keyed::lemma_put(self.subgroups@, id, group, id@);
            lemma_index_of(self.subgroups@, id@);
        }
        let ghost before = self.subgroups@;
        let place = insert(&mut self.subgroups, id, group);
        self.updated_at = at;
        proof {
            if old(self).wf() && group.wf() {
                assert forall|i: int| 0 <= i < self.subgroups@.len() implies (
                #[trigger] self.subgroups@[i]).1.wf() by {
                    if i != place {
                        assert(self.subgroups@[i] == before[i]);
                    }
                }
            }
        }
        &self.subgroups[place].1
    }

    /// The entry under `id` in this group, if there is one.
    pub fn get_entry(&self, id: &str) -> (found: Option<&Entry>)
        ensures
            match found {
                Some(entry) => lookup(self.entries@, id@) == Some(*entry),
                None => lookup(self.entries@, id@) is None,
            },
    {
        match position(&self.entries, id) {
            Some(i) => Some(&self.entries[i].1),
            None => None,
        }
    }

    /// The entry under `id` in this group, to be changed in its place.
    pub fn get_entry_mut(&mut self, id: &str) -> (found: Option<&mut Entry>)
        ensures
            match found {
                Some(entry) => {
                    &&& index_of(old(self).entries@, id@) matches Some(i) && {
                        &&& *entry == old(self).entries@[i].1
                        &&& final(self).entries@ == old(self).entries@.update(
                            i,
                            (old(self).entries@[i].0, *final(entry)),
                        )
                    }
                    &&& old(self).same_but_entries(final(self))
                    &&& final(self).updated_at == old(self).updated_at
                },
                None => lookup(old(self).entries@, id@) is None && *final(self) == *old(self),
            },
    {
        match position(&self.entries, id) {
            Some(i) => Some(&mut self.entries[i].1),
            None => None,
        }
    }

    /// Takes the entry under `id` out of this group and returns it. The
    /// group's time of last change is refreshed from the clock if there was
    /// one.
    pub fn remove_entry(&mut self, id: &str) -> (removed: Option<Entry>)
        ensures
            removed == lookup(old(self).entries@, id@),
            final(self).entries@ == without(old(self).entries@, id@),
            old(self).same_but_entries(final(self)),
            removed is None ==> *final(self) == *old(self),
            old(self).wf() ==> final(self).wf() && lookup(final(self).entries@, id@) is None,
    {
        match position(&self.entries, id) {
            Some(_) => self.remove_entry_at(id, now()),
            None => None,
        }
    }

    /// Takes the entry under `id` out of this group and returns it. If
    /// there was one, `at` becomes the group's time of last change; if there
    /// was none, nothing changes.
    pub fn remove_entry_at(&mut self, id: &str, at: Timestamp) -> (removed: Option<Entry>)
        ensures
            removed == lookup(old(self).entries@, id@),
            final(self).entries@ == without(old(self).entries@, id@),
            old(self).same_but_entries(final(self)),
            removed is Some ==> final(self).updated_at == at,
            removed is None ==> *final(self) == *old(self),
            old(self).wf() ==> final(self).wf() && lookup(final(self).entries@, id@) is None,
    {
        proof {
            if self.wf() {
                crate::models::keyed::lemma_without(self.entries@, id@, id@);
            }
            lemma_index_of(self.entries@, id@);
        }
        match position(&self.entries, id) {
            Some(_) => {
                let removed = take(&mut self.entries, id);
                self.updated_at = at;
                removed
            },
            None => None,
        }
    }

    /// The subgroup under `id` in this group, if there is one.
    pub fn get_subgroup(&self, id: &str) -> (found: Option<&Group>)
        ensures
            match found {
                Some(group) => lookup(self.subgroups@, id@) == Some(*group),
                None => lookup(self.subgroups@, id@) is None,
            },
    {
        match position(&self.subgroups, id) {
            Some(i) => Some(&self.subgroups[i].1),
            None => None,
        }
    }

    /// The subgroup under `id` in this group, to be changed in its place.
    pub fn get_subgroup_mut(&mut self, id: &str) -> (found: Option<&mut Group>)
        ensures
            match found {
                Some(group) => {
                    &&& index_of(old(self).subgroups@, id@) matches Some(i) && {
                        &&& *group == old(self).subgroups@[i].1
                        &&& final(self).subgroups@ == old(self).subgroups@.update(
                            i,
                            (old(self).subgroups@[i].0, *final(group)),
                        )
                    }
                    &&& old(self).same_but_subgroups(final(self))
                    &&& final(self).updated_at == old(self).updated_at
                },
                None => lookup(old(self).subgroups@, id@) is None && *final(self) == *old(self),
            },
    {
        match position(&self.subgroups, id) {
            Some(i) => Some(&mut self.subgroups[i].1),
            None => None,
        }
    }

    /// Takes the subgroup under `id` out of this group and returns it, with
    /// all that is in it. The group's time of last change is refreshed from
    /// the clock if there was one.
    pub fn remove_subgroup(&mut self, id: &str) -> (removed: Option<Group>)
        ensures
            removed == lookup(old(self).subgroups@, id@),
            final(self).subgroups@ == without(old(self).subgroups@, id@),
            old(self).same_but_subgroups(final(self)),
            removed is None ==> *final(self) == *old(self),
            old(self).wf() ==> final(self).wf() && lookup(final(self).subgroups@, id@) is None,
    {
        match position(&self.subgroups, id) {
            Some(_) => self.remove_subgroup_at(id, now()),
            None => None,
        }
    }

    /// Takes the subgroup under `id` out of this group and returns it, with
    /// all that is in it. If there was one, `at` becomes the group's time of
    /// last change; if there was none, nothing changes.
    pub fn remove_subgroup_at(&mut self, id: &str, at: Timestamp) -> (removed: Option<Group>)
        ensures
            removed == lookup(old(self).subgroups@, id@),
            final(self).subgroups@ == without(old(self).subgroups@, id@),
            old(self).same_but_subgroups(final(self)),
            removed is Some ==> final(self).updated_at == at,
            removed is None ==> *final(self) == *old(self),
            old(self).wf() ==> final(self).wf() && lookup(final(self).subgroups@, id@) is None,
    {
        proof {
            if self.wf() {
                crate::models::keyed::lemma_without(self.subgroups@, id@, id@);
            }
            lemma_index_of(self.subgroups@, id@);
        }
        let ghost before = self.subgroups@;
        match position(&self.subgroups, id) {
            Some(place) => {
                let removed = take(&mut self.subgroups, id);
                self.updated_at = at;
                proof {
                    if old(self).wf() {
                        assert forall|i: int| 0 <= i < self.subgroups@.len() implies (
                        #[trigger] self.subgroups@[i]).1.wf() by {
                            if i < place {
                                assert(self.subgroups@[i] == before[i]);
                            } else {
                                assert(self.subgroups@[i] == before[i + 1]);
                            }
                        }
                    }
                }
                removed
            },
            None => None,
        }
    }
}

/// The way that is found to a group leads to the group that is found: in a
/// tree with distinct identifiers at each level, a group has a way down to
/// the group under `id` exactly when that group is found below it, the way
/// is not empty, and going down by it ends at the group that is found.
pub proof fn lemma_path_leads(group: &Group, id: Seq<char>)
    requires
        group.wf(),
    ensures
        match group.spec_path_to(id) {
            Some(path) => path.len() > 0 && path.last() == id && group.spec_find_group(id) is Some
                && group.node_at(path) == group.spec_find_group(id),
            None => group.spec_find_group(id) is None,
        },
    decreases group, group.subgroups@.len() + 1,
{
    lemma_index_of(group.subgroups@, id);
    if has_key(group.subgroups@, id) {
        let path = seq![id];
        assert(path.drop_first() =~= Seq::<Seq<char>>::empty());
        let below = lookup(group.subgroups@, id).unwrap();
        assert(below.node_at(path.drop_first()) == Some(below));
    } else {
        lemma_path_from(group, id, 0);
    }
}

/// What `lemma_path_leads` says, of the subgroups from the place `i` on.
pub proof fn lemma_path_from(group: &Group, id: Seq<char>, i: nat)
    requires
        group.wf(),
    ensures
        match group.path_from(id, i) {
            Some(path) => path.len() > 0 && path.last() == id && group.find_group_from(id, i)
                is Some && group.node_at(path) == group.find_group_from(id, i),
            None => group.find_group_from(id, i) is None,
        },
    decreases group, group.subgroups@.len() - i,
{
    if i < group.subgroups@.len() {
        let child = group.subgroups@[i as int].1;
        let key = group.subgroups@[i as int].0@;
        assert(child.wf());
        lemma_path_leads(&child, id);
        match child.spec_path_to(id) {
            Some(rest) => {
                let path = seq![key] + rest;
                assert(path[0] == key);
                assert(path.drop_first() =~= rest);
                assert(first_at(group.subgroups@, key, i as int));
                lemma_index_of(group.subgroups@, key);
            },
            None => {
                lemma_path_from(group, id, i + 1);
            },
        }
    }
}

/// The entry that stands under `id` in the group at the end of `path`.
pub open spec fn entry_at(group: &Group, path: Seq<Seq<char>>, id: Seq<char>) -> Option<Entry> {
    match group.node_at(path) {
        Some(node) => lookup(node.entries@, id),
        None => None,
    }
}

/// The group that stands under `id` at the end of `path`, which ends with
/// `id`.
pub open spec fn group_at(group: &Group, path: Seq<Seq<char>>, id: Seq<char>) -> Option<Group> {
    if path.len() > 0 && path.last() == id {
        group.node_at(path)
    } else {
        None
    }
}

/// A subgroup in or below which an entry is found makes the search through
/// the subgroups find one.
proof fn lemma_entry_from_hits(group: &Group, id: Seq<char>, from: nat, i: nat)
    requires
        from <= i < group.subgroups@.len(),
        group.subgroups@[i as int].1.spec_find_entry(id) is Some,
    ensures
        group.find_entry_from(id, from) is Some,
    decreases i - from,
{
    if from < i && group.subgroups@[from as int].1.spec_find_entry(id) is None {
        lemma_entry_from_hits(group, id, from + 1, i);
    }
}

/// A subgroup below which a group is found makes the search through the
/// subgroups find one.
proof fn lemma_group_from_hits(group: &Group, id: Seq<char>, from: nat, i: nat)
    requires
        from <= i < group.subgroups@.len(),
        group.subgroups@[i as int].1.spec_find_group(id) is Some,
    ensures
        group.find_group_from(id, from) is Some,
    decreases i - from,
{
    if from < i && group.subgroups@[from as int].1.spec_find_group(id) is None {
        lemma_group_from_hits(group, id, from + 1, i);
    }
}

/// An entry that is there is found: if an entry stands under `id` in a
/// group that is reached from `group` by some path, at whatever depth, then
/// the search from `group` finds an entry under `id`.
pub proof fn lemma_find_entry_present(group: &Group, path: Seq<Seq<char>>, id: Seq<char>)
    requires
        entry_at(group, path, id) is Some,
    ensures
        group.spec_find_entry(id) is Some,
    decreases path.len(),
{
    if path.len() > 0 {
        lemma_index_of(group.subgroups@, path[0]);
        let i = index_of(group.subgroups@, path[0]).unwrap();
        let child = group.subgroups@[i].1;
        lemma_find_entry_present(&child, path.drop_first(), id);
        if lookup(group.entries@, id) is None {
            lemma_entry_from_hits(group, id, 0, i as nat);
        }
    }
}

/// An entry that is found is there: in a tree with distinct identifiers at
/// each level, the entry that the search from `group` finds under `id`
/// stands under `id` in a group that is reached from `group` by the path
/// that is returned.
pub proof fn lemma_find_entry_sound(group: &Group, id: Seq<char>) -> (path: Seq<Seq<char>>)
    requires
        group.wf(),
        group.spec_find_entry(id) is Some,
    ensures
        entry_at(group, path, id) == group.spec_find_entry(id),
    decreases group, group.subgroups@.len() + 1,
{
    if lookup(group.entries@, id) is Some {
        Seq::empty()
    } else {
        lemma_entry_from_sound(group, id, 0)
    }
}

/// What `lemma_find_entry_sound` says, of the subgroups from the place `i`
/// on.
proof fn lemma_entry_from_sound(group: &Group, id: Seq<char>, i: nat) -> (path: Seq<Seq<char>>)
    requires
        group.wf(),
        group.find_entry_from(id, i) is Some,
    ensures
        entry_at(group, path, id) == group.find_entry_from(id, i),
    decreases group, group.subgroups@.len() - i,
{
    let child = group.subgroups@[i as int].1;
    let key = group.subgroups@[i as int].0@;
    if child.spec_find_entry(id) is Some {
        assert(child.wf());
        let rest = lemma_find_entry_sound(&child, id);
        let path = seq![key] + rest;
        assert(path[0] == key);
        assert(path.drop_first() =~= rest);
        assert(first_at(group.subgroups@, key, i as int));
        lemma_index_of(group.subgroups@, key);
        path
    } else {
        lemma_entry_from_sound(group, id, i + 1)
    }
}

/// An entry that is nowhere is not found: in a tree with distinct
/// identifiers at each level, if no group that is reached from `group` has
/// an entry under `id`, the search from `group` finds none.
pub proof fn lemma_find_entry_absent(group: &Group, id: Seq<char>)
    requires
        group.wf(),
        forall|path: Seq<Seq<char>>| entry_at(group, path, id) is None,
    ensures
        group.spec_find_entry(id) is None,
{
    if group.spec_find_entry(id) is Some {
        let path = lemma_find_entry_sound(group, id);
        assert(entry_at(group, path, id) is None);
    }
}

/// The entry that is found is the right one: in a tree with distinct
/// identifiers at each level, if an entry stands under `id` at the end of
/// `path`, and every entry that stands under `id` anywhere below `group` is
/// that entry, then the search from `group` finds it.
pub proof fn lemma_find_entry_correct(group: &Group, path: Seq<Seq<char>>, id: Seq<char>)
    requires
        group.wf(),
        entry_at(group, path, id) is Some,
        forall|other: Seq<Seq<char>>| #[trigger]
            entry_at(group, other, id) is Some ==> entry_at(group, other, id) == entry_at(
                group,
                path,
                id,
            ),
    ensures
        group.spec_find_entry(id) == entry_at(group, path, id),
{
    lemma_find_entry_present(group, path, id);
    let found = lemma_find_entry_sound(group, id);
    assert(entry_at(group, found, id) is Some);
}

/// A group that is there is found: if a group stands under `id` at the end
/// of some path from `group`, at whatever depth, then the search from
/// `group` finds a group under `id`.
pub proof fn lemma_find_group_present(group: &Group, path: Seq<Seq<char>>, id: Seq<char>)
    requires
        group_at(group, path, id) is Some,
    ensures
        group.spec_find_group(id) is Some,
    decreases path.len(),
{
    lemma_index_of(group.subgroups@, path[0]);
    lemma_index_of(group.subgroups@, id);
    let i = index_of(group.subgroups@, path[0]).unwrap();
    let child = group.subgroups@[i].1;
    let rest = path.drop_first();
    if path.len() == 1 {
        assert(path[0] == id);
    } else {
        assert(rest.last() == path.last());
        lemma_find_group_present(&child, rest, id);
        if lookup(group.subgroups@, id) is None {
            lemma_group_from_hits(group, id, 0, i as nat);
        }
    }
}

/// A group that is found is there: in a tree with distinct identifiers at
/// each level, the group that the search from `group` finds under `id`
/// stands at the end of the path that is returned, which ends with `id`.
pub proof fn lemma_find_group_sound(group: &Group, id: Seq<char>) -> (path: Seq<Seq<char>>)
    requires
        group.wf(),
        group.spec_find_group(id) is Some,
    ensures
        group_at(group, path, id) == group.spec_find_group(id),
        group.spec_path_to(id) == Some(path),
{
    lemma_path_leads(group, id);
    group.spec_path_to(id).unwrap()
}

/// A group that is nowhere is not found: in a tree with distinct
/// identifiers at each level, if no path from `group` ends at a group under
/// `id`, the search from `group` finds none.
pub proof fn lemma_find_group_absent(group: &Group, id: Seq<char>)
    requires
        group.wf(),
        forall|path: Seq<Seq<char>>| group_at(group, path, id) is None,
    ensures
        group.spec_find_group(id) is None,
{
    if group.spec_find_group(id) is Some {
        let path = lemma_find_group_sound(group, id);
        assert(group_at(group, path, id) is None);
    }
}

/// The group that is found is the right one: in a tree with distinct
/// identifiers at each level, if a group stands under `id` at the end of
/// `path`, and every group that stands under `id` anywhere below `group` is
/// that group, then the search from `group` finds it.
pub proof fn lemma_find_group_correct(group: &Group, path: Seq<Seq<char>>, id: Seq<char>)
    requires
        group.wf(),
        group_at(group, path, id) is Some,
        forall|other: Seq<Seq<char>>| #[trigger]
            group_at(group, other, id) is Some ==> group_at(group, other, id) == group_at(
                group,
                path,
                id,
            ),
    ensures
        group.spec_find_group(id) == group_at(group, path, id),
{
    lemma_find_group_present(group, path, id);
    let found = lemma_find_group_sound(group, id);
    assert(group_at(group, found, id) is Some);
}

/// Every group of a tree with distinct identifiers at each level has
/// distinct identifiers at each level itself.
pub proof fn lemma_node_at_wf(group: &Group, path: Seq<Seq<char>>)
    requires
        group.wf(),
        group.node_at(path) is Some,
    ensures
        group.node_at(path).unwrap().wf(),
    decreases path.len(),
{
    if path.len() > 0 {
        lemma_index_of(group.subgroups@, path[0]);
        let i = index_of(group.subgroups@, path[0]).unwrap();
        assert(group.subgroups@[i].1.wf());
        lemma_node_at_wf(&group.subgroups@[i].1, path.drop_first());
    }
}

/// A group that was replaced stands where the old one stood: if `after` is
/// `before` with the group at the end of `path` replaced by `node`, then
/// going down from `after` by `path` ends at `node`.
pub proof fn lemma_replaced_node_at(
    before: &Group,
    after: &Group,
    path: Seq<Seq<char>>,
    node: Group,
)
    requires
        before.replaced_at(after, path, node),
    ensures
        after.node_at(path) == Some(node),
    decreases path.len(),
{
    if path.len() > 0 {
        lemma_index_of(before.subgroups@, path[0]);
        let i = index_of(before.subgroups@, path[0]).unwrap();
        assert(first_at(after.subgroups@, path[0], i)) by {
            assert forall|j: int| 0 <= j < i implies (#[trigger] after.subgroups@[j]).0@
                != path[0] by {
                assert(after.subgroups@[j] == before.subgroups@[j]);
                assert(before.subgroups@[j].0@ != path[0]);
            }
        }
        lemma_index_of(after.subgroups@, path[0]);
        lemma_replaced_node_at(
            &before.subgroups@[i].1,
            &after.subgroups@[i].1,
            path.drop_first(),
            node,
        );
    }
}

/// Replacing a group keeps the identifiers distinct: if `after` is `before`
/// with the group at the end of `path` replaced by `node`, and both `before`
/// and `node` have distinct identifiers at each level, then so has `after`.
pub proof fn lemma_replaced_wf(before: &Group, after: &Group, path: Seq<Seq<char>>, node: Group)
    requires
        before.wf(),
        node.wf(),
        before.replaced_at(after, path, node),
    ensures
        after.wf(),
    decreases path.len(),
{
    if path.len() > 0 {
        lemma_index_of(before.subgroups@, path[0]);
        let i = index_of(before.subgroups@, path[0]).unwrap();
        assert(before.subgroups@[i].1.wf());
        lemma_replaced_wf(
            &before.subgroups@[i].1,
            &after.subgroups@[i].1,
            path.drop_first(),
            node,
        );
        assert forall|j: int| 0 <= j < after.subgroups@.len() implies (
        #[trigger] after.subgroups@[j]).1.wf() by {
            if j != i {
                assert(after.subgroups@[j] == before.subgroups@[j]);
                assert(before.subgroups@[j].1.wf());
            }
        }
        assert forall|a: int, b: int| 0 <= a < b < after.subgroups@.len() implies (
        #[trigger] after.subgroups@[a]).0@ != (#[trigger] after.subgroups@[b]).0@ by {
            assert(before.subgroups@[a].0@ != before.subgroups@[b].0@);
            if a != i {
                assert(after.subgroups@[a] == before.subgroups@[a]);
            }
            if b != i {
                assert(after.subgroups@[b] == before.subgroups@[b]);
            }
        }
    }
}

/// The mathematical value of a group, field by field.
pub proof fn lemma_view(g: &Group)
    ensures
        g@.id == g.id@,
        g@.name == g.name@,
        g@.parent_id == opt_text(g.parent_id),
        g@.created_at == g.created_at,
        g@.updated_at == g.updated_at,
        g@.entries.len() == g.entries@.len(),
        forall|j: int|
            0 <= j < g.entries@.len() ==> #[trigger] g@.entries[j] == (
                g.entries@[j].0@,
                g.entries@[j].1@,
            ),
        g@.subgroups.len() == g.subgroups@.len(),
        forall|j: int|
            0 <= j < g.subgroups@.len() ==> #[trigger] g@.subgroups[j] == (
                g.subgroups@[j].0@,
                g.subgroups@[j].1@,
            ),
{
}

/// Two groups that agree in their fields, entry by entry and subgroup by
/// subgroup, are the same mathematical value.
pub proof fn lemma_same_view(a: &Group, b: &Group)
    requires
        a.id@ == b.id@,
        a.name@ == b.name@,
        opt_text(a.parent_id) == opt_text(b.parent_id),
        a.created_at == b.created_at,
        a.updated_at == b.updated_at,
        a.entries@.len() == b.entries@.len(),
        forall|j: int|
            0 <= j < a.entries@.len() ==> (#[trigger] a.entries@[j]).0@ == b.entries@[j].0@
                && a.entries@[j].1@ == b.entries@[j].1@,
        a.subgroups@.len() == b.subgroups@.len(),
        forall|j: int|
            0 <= j < a.subgroups@.len() ==> (#[trigger] a.subgroups@[j]).0@ == b.subgroups@[j].0@
                && a.subgroups@[j].1@ == b.subgroups@[j].1@,
    ensures
        a@ == b@,
{
    lemma_view(a);
    lemma_view(b);
    assert forall|j: int| 0 <= j < a@.entries.len() implies a@.entries[j] == b@.entries[j] by {
        assert(a.entries@[j].0@ == b.entries@[j].0@);
    }
    assert forall|j: int| 0 <= j < a@.subgroups.len() implies a@.subgroups[j] == b@.subgroups[j] by {
        assert(a.subgroups@[j].0@ == b.subgroups@[j].0@);
    }
    assert(a@.entries =~= b@.entries);
    assert(a@.subgroups =~= b@.subgroups);
}

impl Clone for Group {
    /// A copy of the group with copies of all that is in it and below it.
    fn clone(&self) -> (copy: Group)
        ensures
            copy@ == self@,
        decreases self,
    {
        let mut entries: Vec<(String, Entry)> = Vec::new();
        let mut i: usize = 0;
        while i < self.entries.len()
            invariant
                i <= self.entries@.len(),
                entries@.len() == i,
                forall|j: int|
                    0 <= j < i ==> (#[trigger] entries@[j]).0@ == self.entries@[j].0@
                        && entries@[j].1@ == self.entries@[j].1@,
            decreases self.entries@.len() - i,
        {
            entries.push((self.entries[i].0.clone(), self.entries[i].1.clone()));
            i += 1;
        }
        let mut subgroups: Vec<(String, Group)> = Vec::new();
        let mut k: usize = 0;
        while k < self.subgroups.len()
            invariant
                k <= self.subgroups@.len(),
                subgroups@.len() == k,
                forall|j: int|
                    0 <= j < k ==> (#[trigger] subgroups@[j]).0@ == self.subgroups@[j].0@
                        && subgroups@[j].1@ == self.subgroups@[j].1@,
            decreases self.subgroups@.len() - k,
        {
            subgroups.push((self.subgroups[k].0.clone(), self.subgroups[k].1.clone()));
            k += 1;
        }
        let copy = Group {
            id: self.id.clone(),
            name: self.name.clone(),
            entries,
            subgroups,
            parent_id: self.parent_id.clone(),
            created_at: self.created_at,
            updated_at: self.updated_at,
        };
        proof {
            lemma_same_view(&copy, self);
        }
        copy
    }
}

} // verus!
