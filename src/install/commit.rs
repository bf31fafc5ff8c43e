//! The final transition of a registry slot: the installed record is built
//! and written, and the dependency edges are brought up to date.

use vstd::prelude::*;

use super::paths::local_files;
use crate::db::dependencies::{
    dependency_at, dependency_count, dependency_entries, dependency_keys, get_dependency, has_key,
    insert_dependency, new_dependency_map, CurrentDependencyInfo, DependencyMap,
};
use crate::db::graph::{
    current_dependents, depends_on, dependents_seq, lemma_dependent_listed, lemma_dependents_frame,
    Edges,
};
use crate::db::model::{
    edges_of, first_slot, installed_record, lemma_slot_at, lemma_slot_update, slot, with_dependents,
    InstalledPackageDataEntry, MainStatus, PackageDataEntry, Registry, Slots, StaticFiles, Status,
};
use crate::error::Error;
use crate::s9pk::id::PackageId;
use crate::s9pk::manifest::{same_manifest, DepInfo, Manifest};

verus! {

/// The required dependencies of a manifest, each once, in order of first
/// appearance, none yet known to be satisfied.
pub open spec fn required_entries(deps: Seq<(PackageId, DepInfo)>) -> Edges
    decreases deps.len(),
{
    if deps.len() == 0 {
        Seq::empty()
    } else {
        let prev = required_entries(deps.drop_last());
        let last = deps.last();
        if last.1.optional is None && !has_key(prev, last.0@) {
            prev.push((last.0@, CurrentDependencyInfo { satisfied: false }))
        } else {
            prev
        }
    }
}

/// The keys of `es` whose package has no installed record in `s`, in order.
pub open spec fn missing_dependencies(es: Edges, s: Slots) -> Seq<Seq<char>>
    decreases es.len(),
{
    if es.len() == 0 {
        Seq::empty()
    } else {
        let prev = missing_dependencies(es.drop_last(), s);
        let k = es.last().0;
        if slot(s, k) matches Some(e) && installed_record(e) is Some {
            prev
        } else {
            prev.push(k)
        }
    }
}

/// A map of the required dependencies of a manifest.
pub fn required_dependencies(deps: &Vec<(PackageId, DepInfo)>) -> (r: DependencyMap)
    ensures
        dependency_entries(r) == required_entries(deps@),
{
    let mut m = new_dependency_map();
    let mut i: usize = 0;
    assert(deps@.take(0) =~= Seq::<(PackageId, DepInfo)>::empty());
    while i < deps.len()
        invariant
            i <= deps@.len(),
            dependency_entries(m) == required_entries(deps@.take(i as int)),
        decreases deps@.len() - i,
    {
        let (id, info) = &deps[i];
        assert(deps@.take(i + 1).drop_last() =~= deps@.take(i as int));
        assert(deps@.take(i + 1).last() == deps@[i as int]);
        if info.optional.is_none() {
            if get_dependency(&m, id).is_none() {
                insert_dependency(&mut m, id.clone(), CurrentDependencyInfo::unknown());
            }
        }
        i = i + 1;
    }
    assert(deps@.take(deps@.len() as int) =~= deps@);
    m
}

/// The required dependencies in `m` that have no installed version in the
/// registry.
pub fn dependency_errors(reg: &Registry, m: &DependencyMap) -> (r: Vec<PackageId>)
    ensures
        r@.len() == missing_dependencies(dependency_entries(*m), reg.entries()).len(),
        forall|i: int|
            0 <= i < r@.len() ==> #[trigger] r@[i]@ == missing_dependencies(
                dependency_entries(*m),
                reg.entries(),
            )[i],
{
    let ghost es = dependency_entries(*m);
    let n = dependency_count(m);
    let mut out: Vec<PackageId> = Vec::new();
    let mut i: usize = 0;
    assert(es.take(0) =~= Seq::<(Seq<char>, CurrentDependencyInfo)>::empty());
    while i < n
        invariant
            es == dependency_entries(*m),
            n == es.len(),
            i <= n,
            out@.len() == missing_dependencies(es.take(i as int), reg.entries()).len(),
            forall|j: int|
                0 <= j < out@.len() ==> #[trigger] out@[j]@ == missing_dependencies(
                    es.take(i as int),
                    reg.entries(),
                )[j],
        decreases n - i,
    {
        let (key, _) = dependency_at(m, i);
        assert(es.take(i + 1).drop_last() =~= es.take(i as int));
        assert(es.take(i + 1).last() == es[i as int]);
        let has_record = match reg.get(key) {
            Some(PackageDataEntry::Installed { .. }) => true,
            Some(PackageDataEntry::Updating { .. }) => true,
            _ => false,
        };
        if !has_record {
            out.push(key.clone());
        }
        i = i + 1;
    }
    assert(es.take(n as int) =~= es);
    out
}

/// Whether an updated package stays configured: it was configured before,
/// and each migration that ran (from the previous version, then into the new
/// one) reported the configuration still valid.
pub fn configured_after_migration(prev: bool, to: Option<bool>, from: Option<bool>) -> (r: bool)
    ensures
        r == (prev && (to matches Some(c) ==> c) && (from matches Some(c) ==> c)),
{
    let mut configured = prev;
    if let Some(c) = to {
        configured = configured && c;
    }
    if let Some(c) = from {
        configured = configured && c;
    }
    configured
}

/// What an update replaced: the previous version's record and manifest.
#[derive(Debug)]
pub struct PreviousInstall {
    pub installed: InstalledPackageDataEntry,
    pub manifest: Manifest,
}

/// The installed record that a commit writes for `m` over the registry `s`.
pub open spec fn fresh_record(r: InstalledPackageDataEntry, m: Manifest, s: Slots) -> bool {
    &&& r.status.configured == !m.has_config
    &&& r.status.main == MainStatus::Stopped
    &&& r.status.dependency_errors@.len() == missing_dependencies(required_entries(m.dependencies.0@), s).len()
    &&& forall|i: int|
        0 <= i < r.status.dependency_errors@.len() ==> #[trigger] r.status.dependency_errors@[i]@
            == missing_dependencies(required_entries(m.dependencies.0@), s)[i]
    &&& same_manifest(r.manifest, m)
    &&& dependency_entries(r.current_dependencies) == required_entries(m.dependencies.0@)
    &&& dependency_entries(r.current_dependents) == dependents_seq(s, m.id@)
}

/// The slot of a committed install of `m`.
pub open spec fn committed_slot(e: Option<PackageDataEntry>, m: Manifest, s: Slots, addrs: Seq<(String, String)>) -> bool {
    match e {
        Some(PackageDataEntry::Installed { installed, manifest, static_files }) => {
            &&& manifest == m
            &&& fresh_record(installed, m, s)
            &&& installed.interface_addresses@ == addrs
            &&& local_files(static_files, m.id@, m.version, m.icon_type@)
        },
        _ => false,
    }
}

/// `b` is `a` with at most the current dependents of its installed record
/// changed.
pub open spec fn same_but_dependents(a: Option<PackageDataEntry>, b: Option<PackageDataEntry>) -> bool {
    a == b || (a matches Some(x) && exists|d: DependencyMap| b == Some(with_dependents(x, d)))
}

/// The previous version that the commit returns, where the slot was
/// updating.
pub open spec fn previous_of(e: Option<PackageDataEntry>, r: Option<PreviousInstall>) -> bool {
    match e {
        Some(PackageDataEntry::Updating { installed, manifest, .. }) => r == Some(
            PreviousInstall { installed, manifest },
        ),
        _ => r is None,
    }
}

proof fn lemma_edges_kept(e: PackageDataEntry, d: DependencyMap)
    ensures
        edges_of(with_dependents(e, d)) == edges_of(e),
{
}

/// Commits the install of `manifest`, whose slot must exist: builds the
/// installed record (configured only where the package declares no
/// configuration, stopped, its required dependencies, and its dependents
/// found by scanning the registry before its own slot is written), writes
/// it, and then recomputes, by scanning, the current dependents of every
/// required dependency that has an installed record.
pub fn commit_install(reg: &mut Registry, manifest: Manifest, interface_addresses: Vec<(String, String)>) -> (r: Result<Option<PreviousInstall>, Error>)
    requires
        old(reg).wf(),
    ensures
        final(reg).wf(),
        final(reg).broken() == old(reg).broken(),
        r is Err <==> slot(old(reg).entries(), manifest.id@) is None,
        r matches Err(e) ==> e == Error::MissingPackage && final(reg).entries() == old(reg).entries(),
        r matches Ok(p) ==> {
            &&& committed_slot(
                slot(final(reg).entries(), manifest.id@),
                manifest,
                old(reg).entries(),
                interface_addresses@,
            )
            &&& previous_of(slot(old(reg).entries(), manifest.id@), p)
            &&& forall|k: Seq<char>|
                k != manifest.id@ ==> same_but_dependents(
                    #[trigger] slot(old(reg).entries(), k),
                    slot(final(reg).entries(), k),
                )
            &&& forall|k: Seq<char>|
                k != manifest.id@ && !has_key(required_entries(manifest.dependencies.0@), k) ==> #[trigger] slot(
                    final(reg).entries(),
                    k,
                ) == slot(old(reg).entries(), k)
            &&& forall|k: Seq<char>|
                k != manifest.id@ && has_key(required_entries(manifest.dependencies.0@), k) && (
                #[trigger] slot(final(reg).entries(), k) matches Some(e) && installed_record(e) is Some)
                    ==> dependency_entries(
                    installed_record(slot(final(reg).entries(), k)->Some_0)->Some_0.current_dependents,
                ) == dependents_seq(final(reg).entries(), k)
        },
{
    let ghost m = manifest;
    let ghost s0 = reg.entries();
    let id = manifest.id.clone();
    let i = match reg.find(&id) {
        Some(i) => i,
        None => {
            return Err(Error::MissingPackage);
        },
    };
    let current_dependencies = required_dependencies(&manifest.dependencies.0);
    let dep_keys = dependency_keys(&current_dependencies);
    let errors = dependency_errors(reg, &current_dependencies);
    let dependents = current_dependents(reg, &id);
    let installed = InstalledPackageDataEntry {
        status: Status {
            configured: !manifest.has_config,
            main: MainStatus::Stopped,
            dependency_errors: errors,
        },
        manifest: manifest.clone(),
        current_dependents: dependents,
        current_dependencies,
        interface_addresses,
    };
    let static_files = StaticFiles::local(&id, manifest.version, manifest.icon_type.as_str());
    let entry = PackageDataEntry::Installed { installed, manifest, static_files };
    let ghost ev = entry;
    let prev = reg.replace_at(i, entry);
    let ghost s1 = reg.entries();
    proof {
        let key = s0[i as int].0;
        assert(s1 =~= s0.update(i as int, (key, ev)));
        assert forall|k: Seq<char>| #[trigger]
            slot(s1, k) == if k == m.id@ {
                Some(ev)
            } else {
                slot(s0, k)
            } by {
            lemma_slot_update(s0, i as int, key, ev, k);
        }
    }
    let ghost req = required_entries(m.dependencies.0@);
    let mut q: usize = 0;
    while q < dep_keys.len()
        invariant
            id@ == m.id@,
            reg.wf(),
            reg.broken() == old(reg).broken(),
            dep_keys@.len() == req.len(),
            forall|x: int| 0 <= x < dep_keys@.len() ==> #[trigger] dep_keys@[x]@ == req[x].0,
            q <= dep_keys@.len(),
            reg.entries().len() == s1.len(),
            forall|j: int| 0 <= j < s1.len() ==> (#[trigger] reg.entries()[j]).0 == s1[j].0 && edges_of(
                reg.entries()[j].1,
            ) == edges_of(s1[j].1),
            slot(reg.entries(), m.id@) == Some(ev),
            forall|k: Seq<char>|
                k != m.id@ ==> same_but_dependents(#[trigger] slot(s0, k), slot(reg.entries(), k)),
            forall|k: Seq<char>|
                k != m.id@ && !(exists|x: int| 0 <= x < q && #[trigger] req[x].0 == k) ==> #[trigger] slot(
                    reg.entries(),
                    k,
                ) == slot(s0, k),
            forall|x: int|
                0 <= x < q && req[x].0 != m.id@ && (#[trigger] slot(reg.entries(), req[x].0) matches Some(e)
                    && installed_record(e) is Some) ==> dependency_entries(
                    installed_record(slot(reg.entries(), req[x].0)->Some_0)->Some_0.current_dependents,
                ) == dependents_seq(reg.entries(), req[x].0),
        decreases dep_keys@.len() - q,
    {
        let a = &dep_keys[q];
        if !a.same(&id) {
            match reg.find(a) {
                Some(j) => {
                    let has_record = match &reg.entry_at(j).1 {
                        PackageDataEntry::Installing { .. } => false,
                        _ => true,
                    };
                    if has_record {
                        let d = current_dependents(reg, a);
                        let ghost before = reg.entries();
                        let ghost nv = with_dependents(before[j as int].1, d);
                        reg.set_dependents_at(j, d);
                        proof {
                            let key = before[j as int].0;
                            assert forall|k: Seq<char>| #[trigger]
                                slot(reg.entries(), k) == if k == a@ {
                                    Some(nv)
                                } else {
                                    slot(before, k)
                                } by {
                                lemma_slot_update(before, j as int, key, nv, k);
                            }
                            lemma_edges_kept(before[j as int].1, d);
                            assert forall|x: int| 0 <= x < before.len() implies (#[trigger] before[x]).0@
                                == reg.entries()[x].0@ && edges_of(before[x].1) == edges_of(
                                reg.entries()[x].1,
                            ) by {
                                if x == j {
                                    lemma_edges_kept(before[x].1, d);
                                }
                            }
                            assert forall|t: Seq<char>| dependents_seq(before, t) == #[trigger] dependents_seq(
                                reg.entries(),
                                t,
                            ) by {
                                lemma_dependents_frame(before, reg.entries(), t);
                            }
                            assert(slot(reg.entries(), m.id@) == slot(before, m.id@));
                            assert(slot(reg.entries(), a@) == Some(nv));
                            assert(dependency_entries(d) == dependents_seq(reg.entries(), a@));
                            assert(installed_record(nv)->Some_0.current_dependents == d);
                            assert forall|x: int|
                                0 <= x < q + 1 && req[x].0 != m.id@ && (#[trigger] slot(reg.entries(), req[x].0) matches Some(e)
                                    && installed_record(e) is Some) implies dependency_entries(
                                    installed_record(slot(reg.entries(), req[x].0)->Some_0)->Some_0.current_dependents,
                                ) == dependents_seq(reg.entries(), req[x].0) by {
                                if req[x].0 != a@ {
                                    assert(slot(reg.entries(), req[x].0) == slot(before, req[x].0));
                                    assert(dependents_seq(before, req[x].0) == dependents_seq(reg.entries(), req[x].0));
                                }
                            }
                            assert forall|k: Seq<char>| k != m.id@ implies same_but_dependents(
                                #[trigger] slot(s0, k),
                                slot(reg.entries(), k),
                            ) by {
                                if k == a@ {
                                    let prior = slot(before, k);
                                    assert(same_but_dependents(slot(s0, k), prior));
                                    if slot(s0, k) == prior {
                                    } else {
                                        let dd = choose|dd: DependencyMap| prior == Some(
                                            with_dependents(slot(s0, k)->Some_0, dd),
                                        );
                                        assert(with_dependents(with_dependents(slot(s0, k)->Some_0, dd), d)
                                            == with_dependents(slot(s0, k)->Some_0, d));
                                    }
                                }
                            }
                        }
                    }
                },
                None => {},
            }
        }
        q = q + 1;
    }
    proof {
        assert forall|k: Seq<char>|
            k != m.id@ && !has_key(req, k) implies #[trigger] slot(reg.entries(), k) == slot(s0, k) by {
            if exists|x: int| 0 <= x < dep_keys@.len() && #[trigger] req[x].0 == k {
                let x = choose|x: int| 0 <= x < dep_keys@.len() && #[trigger] req[x].0 == k;
                assert(req[x].0 == k);
            }
        }
    }
    let p = match prev {
        PackageDataEntry::Updating { installed, manifest, .. } => Some(PreviousInstall { installed, manifest }),
        _ => None,
    };
    Ok(p)
}

/// After a package `m` is committed, every package `a` other than `m` that
/// `m` requires and that has an installed record lists `m` among its current
/// dependents: the commit leaves `a`'s dependents equal to a scan of the
/// registry, and `m`'s own slot, which declares the edge, is part of it.
pub proof fn lemma_commit_lists_dependent(
    before: Slots,
    after: Slots,
    m: Manifest,
    addrs: Seq<(String, String)>,
    a: Seq<char>,
)
    requires
        committed_slot(slot(after, m.id@), m, before, addrs),
        a != m.id@,
        has_key(required_entries(m.dependencies.0@), a),
        slot(after, a) matches Some(e) && installed_record(e) is Some,
        dependency_entries(installed_record(slot(after, a)->Some_0)->Some_0.current_dependents)
            == dependents_seq(after, a),
    ensures
        has_key(
            dependency_entries(installed_record(slot(after, a)->Some_0)->Some_0.current_dependents),
            m.id@,
        ),
{
    let j = choose|j: int| first_slot(after, m.id@, j);
    lemma_slot_at(after, m.id@, j);
    assert(depends_on(after[j].1, a));
    lemma_dependent_listed(after, a, j);
}

} // verus!
