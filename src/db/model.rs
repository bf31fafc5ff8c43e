//! The registry's records and the registry itself.

use vstd::prelude::*;

use super::dependencies::{dependency_entries, CurrentDependencyInfo, DependencyMap};
use crate::install::progress::InstallProgress;
use crate::s9pk::id::PackageId;
use crate::s9pk::manifest::Manifest;

verus! {

/// Whether the package's main process runs.
#[derive(Clone, Copy, Debug, PartialEq, Eq, Structural)]
pub enum MainStatus {
    Stopped,
    Running,
}

/// The steady-state status of an installed package.
#[derive(Debug)]
pub struct Status {
    /// The package has a valid configuration.
    pub configured: bool,
    pub main: MainStatus,
    /// Required dependencies that were not installed when the package was.
    pub dependency_errors: Vec<PackageId>,
}

/// Where a package's public assets lie.
#[derive(Debug)]
pub struct StaticFiles {
    pub license: String,
    pub instructions: String,
    pub icon: String,
}

/// The record of an installed package.
#[derive(Debug)]
pub struct InstalledPackageDataEntry {
    pub status: Status,
    pub manifest: Manifest,
    /// Installed packages that depend on this one, found by scanning the
    /// registry.
    pub current_dependents: DependencyMap,
    /// The package's required dependencies.
    pub current_dependencies: DependencyMap,
    /// Each interface's address, as (interface, address).
    pub interface_addresses: Vec<(String, String)>,
}

/// One registry slot.
#[derive(Debug)]
pub enum PackageDataEntry {
    /// A fresh install is in flight.
    Installing { install_progress: InstallProgress, static_files: StaticFiles, manifest: Manifest },
    /// An install is in flight over a previous version that stays usable.
    Updating {
        install_progress: InstallProgress,
        static_files: StaticFiles,
        installed: InstalledPackageDataEntry,
        manifest: Manifest,
    },
    /// The steady state.
    Installed { installed: InstalledPackageDataEntry, manifest: Manifest, static_files: StaticFiles },
}

/// The record of an installed version, where the slot has one.
pub open spec fn installed_record(e: PackageDataEntry) -> Option<InstalledPackageDataEntry> {
    match e {
        PackageDataEntry::Installed { installed, .. } => Some(installed),
        PackageDataEntry::Updating { installed, .. } => Some(installed),
        PackageDataEntry::Installing { .. } => None,
    }
}

/// The slot holds an install in flight.
pub open spec fn is_transient(e: PackageDataEntry) -> bool {
    !(e is Installed)
}

/// The dependency edges that a slot's installed record declares.
pub open spec fn edges_of(e: PackageDataEntry) -> Option<Seq<(Seq<char>, CurrentDependencyInfo)>> {
    match installed_record(e) {
        Some(r) => Some(dependency_entries(r.current_dependencies)),
        None => None,
    }
}

/// The slot with its progress snapshot replaced by `p`, where it is in
/// flight.
pub open spec fn with_progress(e: PackageDataEntry, p: InstallProgress) -> PackageDataEntry {
    match e {
        PackageDataEntry::Installing { static_files, manifest, .. } => PackageDataEntry::Installing {
            install_progress: p,
            static_files,
            manifest,
        },
        PackageDataEntry::Updating { static_files, installed, manifest, .. } => PackageDataEntry::Updating {
            install_progress: p,
            static_files,
            installed,
            manifest,
        },
        other => other,
    }
}

/// The slot with the current dependents of its installed record replaced by
/// `d`, where it has one.
pub open spec fn with_dependents(e: PackageDataEntry, d: DependencyMap) -> PackageDataEntry {
    match e {
        PackageDataEntry::Installed { installed, manifest, static_files } => PackageDataEntry::Installed {
            installed: InstalledPackageDataEntry { current_dependents: d, ..installed },
            manifest,
            static_files,
        },
        PackageDataEntry::Updating { install_progress, static_files, installed, manifest } => PackageDataEntry::Updating {
            install_progress,
            static_files,
            installed: InstalledPackageDataEntry { current_dependents: d, ..installed },
            manifest,
        },
        other => other,
    }
}

pub type Slots = Seq<(PackageId, PackageDataEntry)>;

/// `i` is the first position of package `k`.
pub open spec fn first_slot(s: Slots, k: Seq<char>, i: int) -> bool {
    &&& 0 <= i < s.len()
    &&& s[i].0@ == k
    &&& forall|j: int| 0 <= j < i ==> #[trigger] s[j].0@ != k
}

/// The slot of package `k`.
pub open spec fn slot(s: Slots, k: Seq<char>) -> Option<PackageDataEntry> {
    if exists|i: int| first_slot(s, k, i) {
        Some(s[choose|i: int| first_slot(s, k, i)].1)
    } else {
        None
    }
}

/// No package has two slots.
pub open spec fn keys_distinct(s: Slots) -> bool {
    forall|i: int, j: int| 0 <= i < j < s.len() ==> #[trigger] s[i].0@ != #[trigger] s[j].0@
}

pub proof fn lemma_first_slot_unique(s: Slots, k: Seq<char>, i: int, j: int)
    requires
        first_slot(s, k, i),
        first_slot(s, k, j),
    ensures
        i == j,
{
    if i < j {
        assert(s[i].0@ != k);
    } else if j < i {
        assert(s[j].0@ != k);
    }
}

pub proof fn lemma_slot_at(s: Slots, k: Seq<char>, i: int)
    requires
        first_slot(s, k, i),
    ensures
        slot(s, k) == Some(s[i].1),
{
    let c = choose|c: int| first_slot(s, k, c);
    lemma_first_slot_unique(s, k, i, c);
}

/// A package that occurs at all has a first position.
pub proof fn lemma_first_exists(s: Slots, k: Seq<char>, j: int)
    requires
        0 <= j < s.len(),
        s[j].0@ == k,
    ensures
        exists|m: int| first_slot(s, k, m),
    decreases j,
{
    if forall|q: int| 0 <= q < j ==> #[trigger] s[q].0@ != k {
        assert(first_slot(s, k, j));
    } else {
        let q = choose|q: int| 0 <= q < j && #[trigger] s[q].0@ != k == false;
        lemma_first_exists(s, k, q);
    }
}

/// A package without a slot occurs nowhere.
pub proof fn lemma_slot_none(s: Slots, k: Seq<char>)
    requires
        slot(s, k) is None,
    ensures
        forall|j: int| 0 <= j < s.len() ==> #[trigger] s[j].0@ != k,
{
    assert forall|j: int| 0 <= j < s.len() implies #[trigger] s[j].0@ != k by {
        if s[j].0@ == k {
            lemma_first_exists(s, k, j);
        }
    }
}

/// Replacing the entry at the first position of a package changes only that
/// package's slot.
pub proof fn lemma_slot_update(s: Slots, i: int, id: PackageId, e: PackageDataEntry, k: Seq<char>)
    requires
        first_slot(s, id@, i),
    ensures
        slot(s.update(i, (id, e)), k) == if k == id@ {
            Some(e)
        } else {
            slot(s, k)
        },
{
    let t = s.update(i, (id, e));
    assert(forall|j: int| 0 <= j < s.len() ==> #[trigger] t[j].0@ == s[j].0@);
    if k == id@ {
        assert(first_slot(t, k, i));
        lemma_slot_at(t, k, i);
    } else if exists|j: int| first_slot(s, k, j) {
        let j = choose|j: int| first_slot(s, k, j);
        assert(first_slot(t, k, j));
        lemma_slot_at(s, k, j);
        lemma_slot_at(t, k, j);
    } else {
        assert forall|j: int| !first_slot(t, k, j) by {
            if first_slot(t, k, j) {
                assert(j < s.len());
                assert(t[j].0@ == s[j].0@);
                assert forall|q: int| 0 <= q < j implies #[trigger] s[q].0@ != k by {
                    assert(t[q].0@ != k);
                }
                assert(first_slot(s, k, j));
            }
        }
    }
}

/// Appending a slot for a package that has none adds only that slot.
pub proof fn lemma_slot_push(s: Slots, id: PackageId, e: PackageDataEntry, k: Seq<char>)
    requires
        slot(s, id@) is None,
    ensures
        slot(s.push((id, e)), k) == if k == id@ {
            Some(e)
        } else {
            slot(s, k)
        },
{
    let t = s.push((id, e));
    assert(forall|j: int| 0 <= j < s.len() ==> #[trigger] t[j] == s[j]);
    assert(t[s.len() as int].0@ == id@);
    if k == id@ {
        lemma_slot_none(s, k);
        assert(first_slot(t, k, s.len() as int));
        lemma_slot_at(t, k, s.len() as int);
    } else if exists|j: int| first_slot(s, k, j) {
        let j = choose|j: int| first_slot(s, k, j);
        assert(first_slot(t, k, j));
        lemma_slot_at(s, k, j);
        lemma_slot_at(t, k, j);
    } else {
        assert forall|j: int| !first_slot(t, k, j) by {
            if first_slot(t, k, j) {
                assert(j < s.len());
                assert(t[j].0@ == s[j].0@);
                assert forall|q: int| 0 <= q < j implies #[trigger] s[q].0@ != k by {
                    assert(t[q].0@ != k);
                }
                assert(first_slot(s, k, j));
            }
        }
    }
}

/// The identifiers of the slots, in order; only the installed ones unless
/// `include_transient`.
pub open spec fn slot_keys(s: Slots, include_transient: bool) -> Seq<Seq<char>>
    decreases s.len(),
{
    if s.len() == 0 {
        Seq::empty()
    } else {
        let prev = slot_keys(s.drop_last(), include_transient);
        if include_transient || s.last().1 is Installed {
            prev.push(s.last().0@)
        } else {
            prev
        }
    }
}

/// The persistent record of every package, and the packages whose install
/// failed after their slot was created.
#[derive(Debug)]
pub struct Registry {
    package_data: Vec<(PackageId, PackageDataEntry)>,
    broken_packages: Vec<PackageId>,
}

impl Registry {
    /// No package has two slots.
    pub open spec fn wf(&self) -> bool {
        keys_distinct(self.entries())
    }

    /// The slots, in the order in which packages first got one.
    pub closed spec fn entries(&self) -> Slots {
        self.package_data@
    }

    /// The packages whose install failed, in order.
    pub closed spec fn broken(&self) -> Seq<PackageId> {
        self.broken_packages@
    }

    /// An empty registry.
    pub fn new() -> (r: Registry)
        ensures
            r.wf(),
            r.entries().len() == 0,
            r.broken().len() == 0,
    {
        Registry { package_data: Vec::new(), broken_packages: Vec::new() }
    }

    /// The packages whose install failed.
    pub fn broken_packages(&self) -> (r: &Vec<PackageId>)
        ensures
            r@ == self.broken(),
    {
        &self.broken_packages
    }

    /// Adds `id` to the packages whose install failed.
    pub fn push_broken(&mut self, id: PackageId)
        ensures
            final(self).broken() == old(self).broken().push(id),
            final(self).entries() == old(self).entries(),
            final(self).wf() == old(self).wf(),
    {
        self.broken_packages.push(id);
    }

    /// The identifiers of the packages with a slot, in order; those with an
    /// install in flight only if `include_transient`.
    pub fn keys(&self, include_transient: bool) -> (r: Vec<PackageId>)
        ensures
            r@.len() == slot_keys(self.entries(), include_transient).len(),
            forall|i: int|
                0 <= i < r@.len() ==> #[trigger] r@[i]@ == slot_keys(self.entries(), include_transient)[i],
    {
        let ghost s = self.entries();
        let mut out: Vec<PackageId> = Vec::new();
        let mut i: usize = 0;
        assert(s.take(0) =~= Seq::<(PackageId, PackageDataEntry)>::empty());
        while i < self.package_data.len()
            invariant
                s == self.entries(),
                i <= s.len(),
                out@.len() == slot_keys(s.take(i as int), include_transient).len(),
                forall|j: int|
                    0 <= j < out@.len() ==> #[trigger] out@[j]@ == slot_keys(s.take(i as int), include_transient)[j],
            decreases s.len() - i,
        {
            assert(s.take(i + 1).drop_last() =~= s.take(i as int));
            assert(s.take(i + 1).last() == s[i as int]);
            let (id, e) = &self.package_data[i];
            let installed = match e {
                PackageDataEntry::Installed { .. } => true,
                _ => false,
            };
            if include_transient || installed {
                out.push(id.clone());
            }
            i = i + 1;
        }
        assert(s.take(s.len() as int) =~= s);
        out
    }

    /// The number of slots.
    pub fn len(&self) -> (r: usize)
        ensures
            r == self.entries().len(),
    {
        self.package_data.len()
    }

    /// The slot at position `i`.
    pub fn entry_at(&self, i: usize) -> (r: &(PackageId, PackageDataEntry))
        requires
            i < self.entries().len(),
        ensures
            *r == self.entries()[i as int],
    {
        &self.package_data[i]
    }

    /// Puts `e` in place of the slot at position `i`, for the same package,
    /// and returns what was there.
    pub fn replace_at(&mut self, i: usize, e: PackageDataEntry) -> (r: PackageDataEntry)
        requires
            i < old(self).entries().len(),
        ensures
            r == old(self).entries()[i as int].1,
            final(self).entries() == old(self).entries().update(
                i as int,
                (old(self).entries()[i as int].0, e),
            ),
            final(self).broken() == old(self).broken(),
            final(self).wf() == old(self).wf(),
    {
        let (id, prev) = self.package_data.remove(i);
        self.package_data.insert(i, (id, e));
        assert(self.package_data@ =~= old(self).entries().update(
            i as int,
            (old(self).entries()[i as int].0, e),
        ));
        proof {
            let a = self.package_data@;
            let b = old(self).entries();
            assert(a.len() == b.len());
            if keys_distinct(b) {
                assert forall|x: int, y: int| 0 <= x < y < a.len() implies #[trigger] a[x].0@
                    != #[trigger] a[y].0@ by {
                    assert(a[x].0 == b[x].0);
                    assert(a[y].0 == b[y].0);
                    assert(b[x].0@ != b[y].0@);
                }
            }
            if keys_distinct(a) {
                assert forall|x: int, y: int| 0 <= x < y < b.len() implies #[trigger] b[x].0@
                    != #[trigger] b[y].0@ by {
                    assert(a[x].0 == b[x].0);
                    assert(a[y].0 == b[y].0);
                    assert(a[x].0@ != a[y].0@);
                }
            }
        }
        prev
    }

    /// Replaces the progress snapshot of the slot at position `i`, where it is
    /// in flight.
    pub fn set_progress_at(&mut self, i: usize, p: InstallProgress)
        requires
            i < old(self).entries().len(),
        ensures
            final(self).entries() == old(self).entries().update(
                i as int,
                (old(self).entries()[i as int].0, with_progress(old(self).entries()[i as int].1, p)),
            ),
            final(self).broken() == old(self).broken(),
            final(self).wf() == old(self).wf(),
    {
        let (id, e) = self.package_data.remove(i);
        let next = match e {
            PackageDataEntry::Installing { static_files, manifest, .. } => PackageDataEntry::Installing {
                install_progress: p,
                static_files,
                manifest,
            },
            PackageDataEntry::Updating { static_files, installed, manifest, .. } => PackageDataEntry::Updating {
                install_progress: p,
                static_files,
                installed,
                manifest,
            },
            other => other,
        };
        self.package_data.insert(i, (id, next));
        proof {
            let a = self.package_data@;
            let b = old(self).entries();
            assert(a =~= b.update(i as int, (b[i as int].0, with_progress(b[i as int].1, p))));
            assert(a.len() == b.len());
            if keys_distinct(b) {
                assert forall|x: int, y: int| 0 <= x < y < a.len() implies #[trigger] a[x].0@
                    != #[trigger] a[y].0@ by {
                    assert(a[x].0 == b[x].0);
                    assert(a[y].0 == b[y].0);
                    assert(b[x].0@ != b[y].0@);
                }
            }
            if keys_distinct(a) {
                assert forall|x: int, y: int| 0 <= x < y < b.len() implies #[trigger] b[x].0@
                    != #[trigger] b[y].0@ by {
                    assert(a[x].0 == b[x].0);
                    assert(a[y].0 == b[y].0);
                    assert(a[x].0@ != a[y].0@);
                }
            }
        }
    }

    /// Replaces the current dependents of the installed record at position
    /// `i`, where there is one.
    pub fn set_dependents_at(&mut self, i: usize, d: DependencyMap)
        requires
            i < old(self).entries().len(),
        ensures
            final(self).entries() == old(self).entries().update(
                i as int,
                (old(self).entries()[i as int].0, with_dependents(old(self).entries()[i as int].1, d)),
            ),
            final(self).broken() == old(self).broken(),
            final(self).wf() == old(self).wf(),
    {
        let (id, e) = self.package_data.remove(i);
        let next = match e {
            PackageDataEntry::Installed { installed, manifest, static_files } => {
                let InstalledPackageDataEntry {
                    status,
                    manifest: m,
                    current_dependents: _,
                    current_dependencies,
                    interface_addresses,
                } = installed;
                PackageDataEntry::Installed {
                    installed: InstalledPackageDataEntry {
                        status,
                        manifest: m,
                        current_dependents: d,
                        current_dependencies,
                        interface_addresses,
                    },
                    manifest,
                    static_files,
                }
            },
            PackageDataEntry::Updating { install_progress, static_files, installed, manifest } => {
                let InstalledPackageDataEntry {
                    status,
                    manifest: m,
                    current_dependents: _,
                    current_dependencies,
                    interface_addresses,
                } = installed;
                PackageDataEntry::Updating {
                    install_progress,
                    static_files,
                    installed: InstalledPackageDataEntry {
                        status,
                        manifest: m,
                        current_dependents: d,
                        current_dependencies,
                        interface_addresses,
                    },
                    manifest,
                }
            },
            other => other,
        };
        self.package_data.insert(i, (id, next));
        proof {
            let a = self.package_data@;
            let b = old(self).entries();
            assert(a =~= b.update(i as int, (b[i as int].0, with_dependents(b[i as int].1, d))));
            assert(a.len() == b.len());
            if keys_distinct(b) {
                assert forall|x: int, y: int| 0 <= x < y < a.len() implies #[trigger] a[x].0@
                    != #[trigger] a[y].0@ by {
                    assert(a[x].0 == b[x].0);
                    assert(a[y].0 == b[y].0);
                    assert(b[x].0@ != b[y].0@);
                }
            }
            if keys_distinct(a) {
                assert forall|x: int, y: int| 0 <= x < y < b.len() implies #[trigger] b[x].0@
                    != #[trigger] b[y].0@ by {
                    assert(a[x].0 == b[x].0);
                    assert(a[y].0 == b[y].0);
                    assert(a[x].0@ != a[y].0@);
                }
            }
        }
    }

    /// The position of the slot of `id`.
    pub fn find(&self, id: &PackageId) -> (r: Option<usize>)
        ensures
            r is Some <==> slot(self.entries(), id@) is Some,
            r matches Some(i) ==> first_slot(self.entries(), id@, i as int) && slot(
                self.entries(),
                id@,
            ) == Some(self.entries()[i as int].1),
    {
        let n = self.package_data.len();
        let mut i: usize = 0;
        while i < n
            invariant
                n == self.entries().len(),
                i <= n,
                forall|j: int| 0 <= j < i ==> #[trigger] self.entries()[j].0@ != id@,
            decreases n - i,
        {
            if self.package_data[i].0.same(id) {
                proof {
                    assert(first_slot(self.entries(), id@, i as int));
                    lemma_slot_at(self.entries(), id@, i as int);
                }
                return Some(i);
            }
            i = i + 1;
        }
        None
    }

    /// The slot of `id`.
    pub fn get(&self, id: &PackageId) -> (r: Option<&PackageDataEntry>)
        ensures
            match r {
                Some(e) => slot(self.entries(), id@) == Some(*e),
                None => slot(self.entries(), id@) is None,
            },
    {
        match self.find(id) {
            Some(i) => Some(&self.package_data[i].1),
            None => None,
        }
    }

    /// Sets the slot of `id` to `e`, leaving every other slot as it was.
    pub fn set(&mut self, id: PackageId, e: PackageDataEntry) -> (r: Option<PackageDataEntry>)
        requires
            old(self).wf(),
        ensures
            final(self).wf(),
            r == slot(old(self).entries(), id@),
            forall|k: Seq<char>|
                #[trigger] slot(final(self).entries(), k) == if k == id@ {
                    Some(e)
                } else {
                    slot(old(self).entries(), k)
                },
            final(self).broken() == old(self).broken(),
            final(self).entries().len() == old(self).entries().len() + if r is Some {
                0int
            } else {
                1int
            },
    {
        let ghost s = self.package_data@;
        let ghost idv = id@;
        let ghost ev = e;
        match self.find(&id) {
            Some(i) => {
                let (_, prev) = self.package_data.remove(i);
                self.package_data.insert(i, (id, e));
                proof {
                    assert(self.package_data@ =~= s.update(i as int, (self.package_data@[i as int].0, ev)));
                    assert forall|k: Seq<char>| #[trigger]
                        slot(self.package_data@, k) == if k == idv {
                            Some(ev)
                        } else {
                            slot(s, k)
                        } by {
                        lemma_slot_update(s, i as int, self.package_data@[i as int].0, ev, k);
                    }
                    assert(keys_distinct(self.package_data@));
                }
                Some(prev)
            },
            None => {
                self.package_data.push((id, e));
                proof {
                    assert forall|k: Seq<char>| #[trigger]
                        slot(self.package_data@, k) == if k == idv {
                            Some(ev)
                        } else {
                            slot(s, k)
                        } by {
                        lemma_slot_push(s, self.package_data@.last().0, ev, k);
                    }
                    lemma_slot_none(s, idv);
                    assert(keys_distinct(self.package_data@));
                }
                None
            },
        }
    }
}

} // verus!
