//! An audit of a vault: which of its entries have a weak password.

use crate::models::database::Database;
use crate::models::entry::Entry;
use crate::models::group::Group;
use crate::utils::password_analyzer::{Findings, PasswordAnalyzer, PasswordStrength};
use vstd::prelude::*;

verus! {

/// An entry with a weak password.
#[derive(Debug)]
pub struct WeakPassword {
    /// The identifier of the entry.
    pub id: String,
    /// The title of the entry.
    pub title: String,
    /// The strength of its password.
    pub strength: PasswordStrength,
}

/// A `WeakPassword` as a mathematical value.
pub struct WeakPasswordView {
    pub id: Seq<char>,
    pub title: Seq<char>,
    pub strength: PasswordStrength,
}

impl View for WeakPassword {
    type V = WeakPasswordView;

    open spec fn view(&self) -> WeakPasswordView {
        WeakPasswordView { id: self.id@, title: self.title@, strength: self.strength }
    }
}

/// What an audit found.
#[derive(Debug)]
pub struct AuditReport {
    /// The number of entries that were looked at; `usize::MAX` stands for
    /// that many and for more.
    pub total_entries: usize,
    /// The entries with a weak password, in the order in which they were
    /// looked at.
    pub weak_passwords: Vec<WeakPassword>,
}

/// Whether a strength counts as weak.
pub open spec fn is_weak(strength: PasswordStrength) -> bool {
    strength == PasswordStrength::VeryWeak || strength == PasswordStrength::Weak
}

/// The strength of the password of an entry, given the passwords in common
/// use.
pub open spec fn strength_of_entry(entry: Entry, common: Seq<Seq<char>>) -> PasswordStrength {
    Findings::of(entry.password@, common).analysis().strength
}

/// The findings of a list, each as a mathematical value.
pub open spec fn weak_views(list: Seq<WeakPassword>) -> Seq<WeakPasswordView> {
    list.map_values(|w: WeakPassword| w@)
}

/// The weak passwords among the first `n` entries of a list, in their order.
pub open spec fn weak_entries(
    entries: Seq<(String, Entry)>,
    common: Seq<Seq<char>>,
    n: nat,
) -> Seq<WeakPasswordView>
    decreases n,
{
    if n == 0 || n > entries.len() {
        Seq::empty()
    } else {
        let before = weak_entries(entries, common, (n - 1) as nat);
        let entry = entries[n - 1].1;
        if is_weak(strength_of_entry(entry, common)) {
            before.push(
                WeakPasswordView {
                    id: entry.id@,
                    title: entry.title@,
                    strength: strength_of_entry(entry, common),
                },
            )
        } else {
            before
        }
    }
}

/// The weak passwords in a group and below it: those of its entries first,
/// then those of its subgroups, one subgroup after the other.
pub open spec fn weak_in(group: &Group, common: Seq<Seq<char>>) -> Seq<WeakPasswordView>
    decreases group, group.subgroups@.len() + 1,
{
    weak_entries(group.entries@, common, group.entries@.len()) + weak_below(
        group,
        common,
        group.subgroups@.len(),
    )
}

/// The weak passwords in and below the first `n` subgroups of a group.
pub open spec fn weak_below(group: &Group, common: Seq<Seq<char>>, n: nat) -> Seq<WeakPasswordView>
    decreases group, n,
{
    if n == 0 || n > group.subgroups@.len() {
        Seq::empty()
    } else {
        weak_below(group, common, (n - 1) as nat) + weak_in(&group.subgroups@[n - 1].1, common)
    }
}

/// The number of entries in a group and below it.
pub open spec fn entries_in(group: &Group) -> nat
    decreases group, group.subgroups@.len() + 1,
{
    group.entries@.len() + entries_below(group, group.subgroups@.len())
}

/// The number of entries in and below the first `n` subgroups of a group.
pub open spec fn entries_below(group: &Group, n: nat) -> nat
    decreases group, n,
{
    if n == 0 || n > group.subgroups@.len() {
        0
    } else {
        entries_below(group, (n - 1) as nat) + entries_in(&group.subgroups@[n - 1].1)
    }
}

/// A count as a `usize`: the count itself if it fits, else `usize::MAX`.
pub open spec fn capped(count: int) -> usize {
    if count > usize::MAX {
        usize::MAX
    } else {
        count as usize
    }
}

/// Looks at each entry of a group and of the groups below it: counts it,
/// and notes it if its password is weak.
pub fn audit_group(
    group: &Group,
    analyzer: &PasswordAnalyzer,
    weak_passwords: &mut Vec<WeakPassword>,
    total_entries: &mut usize,
)
    ensures
        weak_views(final(weak_passwords)@) == weak_views(old(weak_passwords)@) + weak_in(
            group,
            analyzer@,
        ),
        *final(total_entries) == capped(*old(total_entries) + entries_in(group)),
    decreases group,
{
    let ghost noted = weak_views(weak_passwords@);
    let ghost counted = *total_entries as int;
    let n = group.entries.len();
    let mut i: usize = 0;
    assert(weak_views(weak_passwords@) =~= noted + weak_entries(group.entries@, analyzer@, 0));
    while i < n
        invariant
            n == group.entries@.len(),
            i <= n,
            weak_views(weak_passwords@) == noted + weak_entries(
                group.entries@,
                analyzer@,
                i as nat,
            ),
            *total_entries == capped(counted + i),
            0 <= counted <= usize::MAX,
        decreases n - i,
    {
        if *total_entries < usize::MAX {
            *total_entries = *total_entries + 1;
        }
        let entry = &group.entries[i].1;
        let analysis = analyzer.analyze(entry.password.as_str());
        let ghost before = weak_passwords@;
        match analysis.strength {
            PasswordStrength::VeryWeak | PasswordStrength::Weak => {
                let found = WeakPassword {
                    id: entry.id.clone(),
                    title: entry.title.clone(),
                    strength: analysis.strength,
                };
                weak_passwords.push(found);
                assert(weak_views(weak_passwords@) =~= weak_views(before).push(found@));
                assert(noted + weak_entries(group.entries@, analyzer@, (i + 1) as nat) =~= (noted
                    + weak_entries(group.entries@, analyzer@, i as nat)).push(found@));
            },
            _ => {},
        }
        i += 1;
    }
    let ghost own = weak_entries(group.entries@, analyzer@, n as nat);
    let m = group.subgroups.len();
    let mut k: usize = 0;
    assert(weak_views(weak_passwords@) =~= noted + own + weak_below(group, analyzer@, 0));
    while k < m
        invariant
            m == group.subgroups@.len(),
            n == group.entries@.len(),
            k <= m,
            own == weak_entries(group.entries@, analyzer@, n as nat),
            weak_views(weak_passwords@) == noted + own + weak_below(group, analyzer@, k as nat),
            *total_entries == capped(counted + n + entries_below(group, k as nat)),
            0 <= counted <= usize::MAX,
        decreases m - k,
    {
        let ghost so_far = weak_views(weak_passwords@);
        audit_group(&group.subgroups[k].1, analyzer, weak_passwords, total_entries);
        assert(weak_views(weak_passwords@) =~= noted + own + weak_below(
            group,
            analyzer@,
            (k + 1) as nat,
        )) by {
            assert(weak_below(group, analyzer@, (k + 1) as nat) == weak_below(
                group,
                analyzer@,
                k as nat,
            ) + weak_in(&group.subgroups@[k as int].1, analyzer@));
        }
        k += 1;
    }
    assert(weak_views(weak_passwords@) =~= noted + weak_in(group, analyzer@));
}

/// Audits a vault: counts its entries and lists those whose password is
/// very weak or weak, in the order in which the tree is gone through.
pub fn audit_passwords(db: &Database, analyzer: &PasswordAnalyzer) -> (report: AuditReport)
    ensures
        report.total_entries == capped(entries_in(&db.root_group) as int),
        weak_views(report.weak_passwords@) == weak_in(&db.root_group, analyzer@),
{
    let mut weak_passwords: Vec<WeakPassword> = Vec::new();
    let mut total_entries: usize = 0;
    assert(weak_views(weak_passwords@) =~= Seq::empty());
    audit_group(&db.root_group, analyzer, &mut weak_passwords, &mut total_entries);
    assert(weak_views(weak_passwords@) =~= weak_in(&db.root_group, analyzer@));
    AuditReport { total_entries, weak_passwords }
}

} // verus!
