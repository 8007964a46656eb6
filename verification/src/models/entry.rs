//! A credential record and the history of its passwords.

use crate::models::ident::fresh_id;
use crate::models::text::{opt_text, same_text, wipe};
use crate::models::timestamp::{now, Timestamp};
use std::collections::VecDeque;
use vstd::prelude::*;

verus! {

/// The number of earlier passwords that an entry keeps.
pub const HISTORY_CAPACITY: usize = 10;

/// An earlier password of an entry and the time at which it was replaced.
#[derive(Debug)]
pub struct PasswordHistory {
    pub password: String,
    pub changed_at: Timestamp,
}

/// A `PasswordHistory` as a mathematical value.
pub struct PasswordHistoryView {
    pub password: Seq<char>,
    pub changed_at: Timestamp,
}

impl View for PasswordHistory {
    type V = PasswordHistoryView;

    open spec fn view(&self) -> PasswordHistoryView {
        PasswordHistoryView { password: self.password@, changed_at: self.changed_at }
    }
}

/// A credential record.
#[derive(Debug)]
pub struct Entry {
    /// The identifier under which the entry is found.
    pub id: String,
    pub title: String,
    pub username: String,
    /// The current password.
    pub password: String,
    /// The earlier passwords, the most recent first.
    pub password_history: VecDeque<PasswordHistory>,
    pub url: String,
    pub notes: String,
    pub created_at: Timestamp,
    pub updated_at: Timestamp,
}

/// An `Entry` as a mathematical value.
pub struct EntryView {
    pub id: Seq<char>,
    pub title: Seq<char>,
    pub username: Seq<char>,
    pub password: Seq<char>,
    pub history: Seq<PasswordHistoryView>,
    pub url: Seq<char>,
    pub notes: Seq<char>,
    pub created_at: Timestamp,
    pub updated_at: Timestamp,
}

/// The history `h` after `item` was put in front of it: at most
/// `HISTORY_CAPACITY` items stay, and the one that leaves is the oldest.
pub open spec fn history_pushed(
    h: Seq<PasswordHistoryView>,
    item: PasswordHistoryView,
) -> Seq<PasswordHistoryView> {
    let grown = seq![item] + h;
    if grown.len() > HISTORY_CAPACITY {
        grown.drop_last()
    } else {
        grown
    }
}

impl EntryView {
    /// Whether the history is within its capacity.
    pub open spec fn wf(self) -> bool {
        self.history.len() <= HISTORY_CAPACITY
    }

    /// Whether `candidate` is the current password or one of the history.
    pub open spec fn has_used(self, candidate: Seq<char>) -> bool {
        self.password == candidate || exists|i: int|
            0 <= i < self.history.len() && (#[trigger] self.history[i]).password == candidate
    }

    /// The entry after a change of password to `password` at `changed_at`.
    /// A current password that is not empty moves to the front of the
    /// history; an empty one is not recorded.
    pub open spec fn with_password(self, password: Seq<char>, changed_at: Timestamp) -> EntryView {
        EntryView {
            password,
            history: if self.password.len() > 0 {
                history_pushed(
                    self.history,
                    PasswordHistoryView { password: self.password, changed_at },
                )
            } else {
                self.history
            },
            ..self
        }
    }

    /// The entry after an update: each field that is given replaces the
    /// entry's, the others stay, and `updated_at` is the time of the update.
    pub open spec fn updated(
        self,
        title: Option<Seq<char>>,
        username: Option<Seq<char>>,
        password: Option<Seq<char>>,
        url: Option<Seq<char>>,
        notes: Option<Seq<char>>,
        changed_at: Timestamp,
        updated_at: Timestamp,
    ) -> EntryView {
        let e = match password {
            Some(p) => self.with_password(p, changed_at),
            None => self,
        };
        EntryView {
            title: title.unwrap_or(self.title),
            username: username.unwrap_or(self.username),
            url: url.unwrap_or(self.url),
            notes: notes.unwrap_or(self.notes),
            updated_at,
            ..e
        }
    }
}

impl View for Entry {
    type V = EntryView;

    open spec fn view(&self) -> EntryView {
        EntryView {
            id: self.id@,
            title: self.title@,
            username: self.username@,
            password: self.password@,
            history: self.password_history@.map_values(|h: PasswordHistory| h@),
            url: self.url@,
            notes: self.notes@,
            created_at: self.created_at,
            updated_at: self.updated_at,
        }
    }
}

impl Entry {
    /// Whether the history is within its capacity.
    pub open spec fn wf(&self) -> bool {
        self@.wf()
    }

    /// A new entry with the given fields, an empty history, a fresh random
    /// identifier and the current time as both of its timestamps.
    pub fn new(title: String, username: String, password: String, url: String, notes: String) -> (e:
        Entry)
        ensures
            e@.title == title@,
            e@.username == username@,
            e@.password == password@,
            e@.url == url@,
            e@.notes == notes@,
            e@.history.len() == 0,
            e@.created_at == e@.updated_at,
            e.wf(),
    {
        let created = now();
        Entry::with_id(fresh_id(), title, username, password, url, notes, created)
    }

    /// The entry with the given identifier and fields, an empty history and
    /// `created` as both of its timestamps.
    pub fn with_id(
        id: String,
        title: String,
        username: String,
        password: String,
        url: String,
        notes: String,
        created: Timestamp,
    ) -> (e: Entry)
        ensures
            e@ == (EntryView {
                id: id@,
                title: title@,
                username: username@,
                password: password@,
                history: Seq::empty(),
                url: url@,
                notes: notes@,
                created_at: created,
                updated_at: created,
            }),
            e.wf(),
    {
        let e = Entry {
            id,
            title,
            username,
            password,
            password_history: VecDeque::new(),
            url,
            notes,
            created_at: created,
            updated_at: created,
        };
        assert(e@.history =~= Seq::empty());
        e
    }

    /// Updates the entry at the current time: each field that is given
    /// replaces the entry's, the others stay. A new password moves the
    /// current one, unless it is empty, to the front of the history, from
    /// which the oldest item leaves once the capacity is passed. The bytes of
    /// a password that leaves the entry are overwritten first.
    pub fn update(
        &mut self,
        title: Option<String>,
        username: Option<String>,
        password: Option<String>,
        url: Option<String>,
        notes: Option<String>,
    )
        ensures
            exists|changed_at: Timestamp, updated_at: Timestamp|
                final(self)@ == old(self)@.updated(
                    opt_text(title),
                    opt_text(username),
                    opt_text(password),
                    opt_text(url),
                    opt_text(notes),
                    changed_at,
                    updated_at,
                ),
            old(self).wf() ==> final(self).wf(),
    {
        let changed_at = now();
        let updated_at = now();
        self.update_at(title, username, password, url, notes, changed_at, updated_at);
    }

    /// Updates the entry as `update` does, with the times given: `changed_at`
    /// goes with the password that moves to the history, `updated_at` becomes
    /// the entry's time of last change.
    pub fn update_at(
        &mut self,
        title: Option<String>,
        username: Option<String>,
        password: Option<String>,
        url: Option<String>,
        notes: Option<String>,
        changed_at: Timestamp,
        updated_at: Timestamp,
    )
        ensures
            final(self)@ == old(self)@.updated(
                opt_text(title),
                opt_text(username),
                opt_text(password),
                opt_text(url),
                opt_text(notes),
                changed_at,
                updated_at,
            ),
            old(self).wf() ==> final(self).wf(),
    {
        if let Some(title) = title {
            self.title = title;
        }
        if let Some(username) = username {
            self.username = username;
        }
        if let Some(mut new_password) = password {
            if !self.password.as_str().is_empty() {
                let previous = PasswordHistory { password: self.password.clone(), changed_at };
                let ghost before = self.password_history@;
                self.password_history.push_front(previous);
                if self.password_history.len() > HISTORY_CAPACITY {
                    if let Some(mut removed) = self.password_history.pop_back() {
                        wipe(&mut removed.password);
                    }
                }
                assert(self.password_history@.map_values(|h: PasswordHistory| h@)
                    =~= history_pushed(
                    before.map_values(|h: PasswordHistory| h@),
                    previous@,
                ));
            }
            wipe(&mut self.password);
            self.password = new_password.clone();
            wipe(&mut new_password);
        }
        if let Some(url) = url {
            self.url = url;
        }
        if let Some(notes) = notes {
            self.notes = notes;
        }
        self.updated_at = updated_at;
    }

    /// Whether `password` is the current password or one of the history.
    pub fn has_used_password(&self, password: &str) -> (used: bool)
        ensures
            used == self@.has_used(password@),
    {
        if same_text(self.password.as_str(), password) {
            return true;
        }
        let n = self.password_history.len();
        let mut i: usize = 0;
        while i < n
            invariant
                n == self.password_history@.len(),
                i <= n,
                self@.password != password@,
                forall|j: int| 0 <= j < i ==> (#[trigger] self@.history[j]).password != password@,
            decreases n - i,
        {
            if same_text(self.password_history[i].password.as_str(), password) {
                assert(self@.history[i as int].password == password@);
                return true;
            }
            i += 1;
        }
        false
    }

    /// Overwrites the bytes of the current password and leaves it empty.
    pub fn clear_password(&mut self)
        ensures
            final(self)@ == (EntryView { password: Seq::empty(), ..old(self)@ }),
    {
        wipe(&mut self.password);
    }

    /// Overwrites the bytes of every password of the history and leaves the
    /// history empty.
    pub fn clear_password_history(&mut self)
        ensures
            final(self)@ == (EntryView { history: Seq::empty(), ..old(self)@ }),
    {
        loop
            invariant
                self.id == old(self).id,
                self.title == old(self).title,
                self.username == old(self).username,
                self.password == old(self).password,
                self.url == old(self).url,
                self.notes == old(self).notes,
                self.created_at == old(self).created_at,
                self.updated_at == old(self).updated_at,
            ensures
                self.password_history@.len() == 0,
            decreases self.password_history@.len(),
        {
            match self.password_history.pop_front() {
                Some(mut item) => {
                    wipe(&mut item.password);
                },
                None => {
                    break ;
                },
            }
        }
        assert(self@.history =~= Seq::empty());
    }
}

impl EntryView {
    /// The entry after a change of password and of nothing else.
    pub open spec fn password_changed(self, password: Seq<char>, at: Timestamp) -> EntryView {
        self.updated(None, None, Some(password), None, None, at, at)
    }

    /// The entry after one change of password for each of `passwords`, in
    /// their order, the change to `passwords[i]` at the time `times[i]`.
    pub open spec fn after_changes(
        self,
        passwords: Seq<Seq<char>>,
        times: Seq<Timestamp>,
    ) -> EntryView
        decreases passwords.len(),
    {
        if passwords.len() == 0 {
            self
        } else {
            self.after_changes(passwords.drop_last(), times.drop_last()).password_changed(
                passwords.last(),
                times.last(),
            )
        }
    }
}

/// What the history holds after the first `done` of a run of changes, none
/// of them to the empty password: in front, and the most recent first, the
/// passwords that the earlier changes of the run set, as many as the
/// capacity admits, each with the time at which it was replaced.
proof fn lemma_history_after(
    entry: EntryView,
    passwords: Seq<Seq<char>>,
    times: Seq<Timestamp>,
    done: nat,
)
    requires
        entry.wf(),
        passwords.len() == times.len(),
        1 <= done <= passwords.len(),
        forall|i: int| 0 <= i < passwords.len() ==> (#[trigger] passwords[i]).len() > 0,
    ensures
        ({
            let after = entry.after_changes(passwords.take(done as int), times.take(done as int));
            &&& after.password == passwords[done - 1]
            &&& after.history.len() <= HISTORY_CAPACITY
            &&& after.history.len() >= done - 1 || after.history.len() == HISTORY_CAPACITY
            &&& forall|k: int|
                0 <= k < done - 1 && k < HISTORY_CAPACITY ==> #[trigger] after.history[k] == (
                PasswordHistoryView {
                    password: passwords[done - 2 - k],
                    changed_at: times[done - 1 - k],
                })
        }),
    decreases done,
{
    let some = passwords.take(done as int);
    let some_times = times.take(done as int);
    assert(some.drop_last() =~= passwords.take(done - 1));
    assert(some_times.drop_last() =~= times.take(done - 1));
    assert(some.last() == passwords[done - 1]);
    assert(some_times.last() == times[done - 1]);
    if done == 1 {
        assert(passwords.take(0) =~= Seq::<Seq<char>>::empty());
        assert(entry.after_changes(passwords.take(0), times.take(0)) == entry);
    } else {
        lemma_history_after(entry, passwords, times, (done - 1) as nat);
        let before = entry.after_changes(passwords.take(done - 1), times.take(done - 1));
        let after = before.password_changed(passwords[done - 1], times[done - 1]);
        assert(before.password == passwords[done - 2]);
        let item = PasswordHistoryView { password: before.password, changed_at: times[done - 1] };
        assert(after.history == history_pushed(before.history, item));
        assert forall|k: int| 0 <= k < done - 1 && k < HISTORY_CAPACITY implies
            #[trigger] after.history[k] == (PasswordHistoryView {
                password: passwords[done - 2 - k],
                changed_at: times[done - 1 - k],
            }) by {
            if k > 0 {
                assert(after.history[k] == before.history[k - 1]);
            }
        }
    }
}

/// The history is bounded and holds the most recent passwords: after eleven
/// or more changes of password in a row, none of them to the empty
/// password, the history of an entry holds exactly the ten passwords that
/// came before the current one, the most recent first, each with the time at
/// which it was replaced.
pub proof fn lemma_history_bound(
    entry: EntryView,
    passwords: Seq<Seq<char>>,
    times: Seq<Timestamp>,
)
    requires
        entry.wf(),
        passwords.len() == times.len(),
        passwords.len() >= 11,
        forall|i: int| 0 <= i < passwords.len() ==> (#[trigger] passwords[i]).len() > 0,
    ensures
        ({
            let n = passwords.len() as int;
            let after = entry.after_changes(passwords, times);
            &&& after.password == passwords[n - 1]
            &&& after.history.len() == HISTORY_CAPACITY
            &&& forall|k: int|
                0 <= k < HISTORY_CAPACITY ==> #[trigger] after.history[k] == (PasswordHistoryView {
                    password: passwords[n - 2 - k],
                    changed_at: times[n - 1 - k],
                })
        }),
{
    let n = passwords.len();
    assert(passwords.take(n as int) =~= passwords);
    assert(times.take(n as int) =~= times);
    lemma_history_after(entry, passwords, times, n);
}

impl Clone for PasswordHistory {
    /// A copy with the same password and time.
    fn clone(&self) -> (copy: PasswordHistory)
        ensures
            copy@ == self@,
    {
        PasswordHistory { password: self.password.clone(), changed_at: self.changed_at }
    }
}

impl Clone for Entry {
    /// A copy with the same fields and the same history.
    fn clone(&self) -> (copy: Entry)
        ensures
            copy@ == self@,
    {
        let mut history: VecDeque<PasswordHistory> = VecDeque::new();
        let n = self.password_history.len();
        let mut i: usize = 0;
        while i < n
            invariant
                n == self.password_history@.len(),
                i <= n,
                history@.len() == i,
                forall|j: int| 0 <= j < i ==> (#[trigger] history@[j])@ == self.password_history@[j]@,
            decreases n - i,
        {
            history.push_back(self.password_history[i].clone());
            i += 1;
        }
        let copy = Entry {
            id: self.id.clone(),
            title: self.title.clone(),
            username: self.username.clone(),
            password: self.password.clone(),
            password_history: history,
            url: self.url.clone(),
            notes: self.notes.clone(),
            created_at: self.created_at,
            updated_at: self.updated_at,
        };
        assert(copy@.history =~= self@.history);
        copy
    }
}

/// An entry that goes out of use takes its current password with it: the
/// bytes are overwritten before they are released. The passwords of the
/// history follow as each item is released in its turn.
impl Drop for Entry {
    fn drop(&mut self)
        opens_invariants none
        no_unwind
    {
        wipe(&mut self.password);
    }
}

/// An item of the history that goes out of use, with its entry or when it is
/// the oldest and leaves a full history, has the bytes of its password
/// overwritten before they are released.
impl Drop for PasswordHistory {
    fn drop(&mut self)
        opens_invariants none
        no_unwind
    {
        wipe(&mut self.password);
    }
}

} // verus!
