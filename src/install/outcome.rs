//! The end of an install attempt: a failure is recorded, a success is
//! committed.

use vstd::prelude::*;

use super::commit::{commit_install, committed_slot, previous_of, PreviousInstall};
use crate::db::model::{slot, Registry};
use crate::error::Error;
use crate::s9pk::id::PackageId;
use crate::s9pk::manifest::Manifest;

verus! {

/// Records `id` among the packages whose install failed, leaving every slot
/// as it is, and hands the error back.
pub fn fail_install(reg: &mut Registry, id: PackageId, e: Error) -> (r: Error)
    ensures
        r == e,
        final(reg).entries() == old(reg).entries(),
        final(reg).broken() == old(reg).broken().push(id),
        final(reg).wf() == old(reg).wf(),
{
    reg.push_broken(id);
    e
}

/// Finishes an install once the container runtime has tried to load the
/// image. A refused image is recorded as a failure with the runtime's error
/// output, and the slot stays in flight. A loaded image leads to the commit;
/// a commit that fails is recorded as a failure too.
pub fn finish_install(
    reg: &mut Registry,
    manifest: Manifest,
    image_load: Result<(), String>,
    interface_addresses: Vec<(String, String)>,
) -> (r: Result<Option<PreviousInstall>, Error>)
    requires
        old(reg).wf(),
    ensures
        final(reg).wf(),
        image_load matches Err(stderr) ==> {
            &&& r == Err::<Option<PreviousInstall>, Error>(Error::ContainerRuntimeFailure(stderr))
            &&& final(reg).entries() == old(reg).entries()
            &&& final(reg).broken() == old(reg).broken().push(manifest.id)
        },
        image_load is Ok && slot(old(reg).entries(), manifest.id@) is None ==> {
            &&& r == Err::<Option<PreviousInstall>, Error>(Error::MissingPackage)
            &&& final(reg).entries() == old(reg).entries()
            &&& final(reg).broken() == old(reg).broken().push(manifest.id)
        },
        image_load is Ok && slot(old(reg).entries(), manifest.id@) is Some ==> {
            &&& r is Ok
            &&& committed_slot(
                slot(final(reg).entries(), manifest.id@),
                manifest,
                old(reg).entries(),
                interface_addresses@,
            )
            &&& previous_of(slot(old(reg).entries(), manifest.id@), r->Ok_0)
            &&& final(reg).broken() == old(reg).broken()
        },
{
    let id = manifest.id.clone();
    match image_load {
        Err(stderr) => Err(fail_install(reg, id, Error::ContainerRuntimeFailure(stderr))),
        Ok(()) => match commit_install(reg, manifest, interface_addresses) {
            Ok(p) => Ok(p),
            Err(e) => Err(fail_install(reg, id, e)),
        },
    }
}

} // verus!
