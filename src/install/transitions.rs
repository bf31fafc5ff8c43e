//! The first transition of a registry slot: an install starts.

use vstd::prelude::*;

use super::paths::local_files;
use super::progress::InstallProgress;
use crate::db::model::{
    is_transient, lemma_slot_update, slot, with_progress, PackageDataEntry, Registry, Slots,
    StaticFiles,
};
use crate::s9pk::id::PackageId;
use crate::error::Error;
use crate::s9pk::manifest::Manifest;

verus! {

/// `e` is the slot of a fresh install of `m` with progress `p`.
pub open spec fn installing_slot(e: Option<PackageDataEntry>, p: InstallProgress, m: Manifest) -> bool {
    match e {
        Some(PackageDataEntry::Installing { install_progress, static_files, manifest }) => {
            &&& install_progress == p
            &&& manifest == m
            &&& local_files(static_files, m.id@, m.version, m.icon_type@)
        },
        _ => false,
    }
}

/// `after` is the slot of an update, with progress `p`, over the installed
/// slot `before`, whose record, manifest and assets it keeps.
pub open spec fn updating_slot(before: PackageDataEntry, after: Option<PackageDataEntry>, p: InstallProgress) -> bool {
    match (before, after) {
        (
            PackageDataEntry::Installed { installed, manifest, static_files },
            Some(PackageDataEntry::Updating { install_progress, static_files: sf, installed: i, manifest: m }),
        ) => {
            &&& install_progress == p
            &&& sf == static_files
            &&& i == installed
            &&& m == manifest
        },
        _ => false,
    }
}

/// Starts an install of `manifest`: an absent slot becomes `Installing`, an
/// installed one becomes `Updating` and keeps its previous version. A slot
/// that is already installing or updating is left as it is, and the install
/// is refused.
pub fn begin_install(reg: &mut Registry, manifest: Manifest, progress: InstallProgress) -> (r: Result<(), Error>)
    requires
        old(reg).wf(),
    ensures
        final(reg).wf(),
        final(reg).broken() == old(reg).broken(),
        r is Err <==> (slot(old(reg).entries(), manifest.id@) matches Some(e) && is_transient(e)),
        r matches Err(e) ==> e == Error::ConflictingTransientState && final(reg).entries() == old(
            reg,
        ).entries(),
        r is Ok ==> forall|k: Seq<char>|
            k != manifest.id@ ==> #[trigger] slot(final(reg).entries(), k) == slot(
                old(reg).entries(),
                k,
            ),
        r is Ok && slot(old(reg).entries(), manifest.id@) is None ==> installing_slot(
            slot(final(reg).entries(), manifest.id@),
            progress,
            manifest,
        ),
        r is Ok && slot(old(reg).entries(), manifest.id@) is Some ==> updating_slot(
            slot(old(reg).entries(), manifest.id@)->Some_0,
            slot(final(reg).entries(), manifest.id@),
            progress,
        ),
{
    let ghost m = manifest;
    let id = manifest.id.clone();
    let static_files = StaticFiles::local(&id, manifest.version, manifest.icon_type.as_str());
    let fresh = PackageDataEntry::Installing { install_progress: progress, static_files, manifest };
    match reg.find(&id) {
        None => {
            reg.set(id, fresh);
            Ok(())
        },
        Some(i) => {
            let installed = match &reg.entry_at(i).1 {
                PackageDataEntry::Installed { .. } => true,
                _ => false,
            };
            if !installed {
                return Err(Error::ConflictingTransientState);
            }
            let ghost s0 = reg.entries();
            let prev = reg.replace_at(i, fresh);
            let ghost s1 = reg.entries();
            match prev {
                PackageDataEntry::Installed { installed, manifest, static_files } => {
                    let next = PackageDataEntry::Updating {
                        install_progress: progress,
                        static_files,
                        installed,
                        manifest,
                    };
                    let ghost nv = next;
                    reg.replace_at(i, next);
                    proof {
                        let key = s0[i as int].0;
                        assert(s1 == s0.update(i as int, (key, fresh)));
                        assert(reg.entries() =~= s0.update(i as int, (key, nv)));
                        assert forall|k: Seq<char>| #[trigger]
                            slot(reg.entries(), k) == if k == m.id@ {
                                Some(nv)
                            } else {
                                slot(s0, k)
                            } by {
                            lemma_slot_update(s0, i as int, key, nv, k);
                        }
                    }
                },
                _ => {
                    proof {
                        assert(false);
                    }
                },
            }
            Ok(())
        },
    }
}

/// Once an install of `m` has started, its slot is in flight, so a second
/// start for the same package is refused and leaves the slot as it is.
pub proof fn lemma_started_slot_in_flight(before: Slots, after: Slots, m: Manifest, p: InstallProgress)
    requires
        installing_slot(slot(after, m.id@), p, m) || (slot(before, m.id@) is Some && updating_slot(
            slot(before, m.id@)->Some_0,
            slot(after, m.id@),
            p,
        )),
    ensures
        slot(after, m.id@) matches Some(e) && is_transient(e),
{
}

/// Records `progress` as the snapshot of the install in flight for `id`.
/// Any other slot, and a slot that is not in flight, stays as it was.
pub fn save_progress(reg: &mut Registry, id: &PackageId, progress: InstallProgress)
    requires
        old(reg).wf(),
    ensures
        final(reg).wf(),
        final(reg).broken() == old(reg).broken(),
        forall|k: Seq<char>|
            k != id@ ==> #[trigger] slot(final(reg).entries(), k) == slot(old(reg).entries(), k),
        slot(final(reg).entries(), id@) == match slot(old(reg).entries(), id@) {
            Some(e) => Some(with_progress(e, progress)),
            None => None,
        },
{
    match reg.find(id) {
        None => {},
        Some(i) => {
            let ghost s0 = reg.entries();
            reg.set_progress_at(i, progress);
            proof {
                let key = s0[i as int].0;
                let nv = with_progress(s0[i as int].1, progress);
                assert forall|k: Seq<char>| #[trigger]
                    slot(reg.entries(), k) == if k == id@ {
                        Some(nv)
                    } else {
                        slot(s0, k)
                    } by {
                    lemma_slot_update(s0, i as int, key, nv, k);
                }
            }
        },
    }
}

} // verus!
