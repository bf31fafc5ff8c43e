//! Volumes: where a package's data lives on disk.

use vstd::prelude::*;
use vstd::string::{StrSliceExecFns, StringExecFns};

use crate::id::{Id, InterfaceId};
use crate::s9pk::id::PackageId;

verus! {

/// The directory under which every package's data lies.
pub const APP_DATA_DIR: &'static str = "/mnt/embassy-os/app-data";

/// The identifier of a volume within a package.
#[derive(Debug, Clone, PartialEq, Eq, Hash)]
pub struct VolumeId(pub Id);

impl View for VolumeId {
    type V = Seq<char>;

    open spec fn view(&self) -> Seq<char> {
        self.0@
    }
}

impl View for InterfaceId {
    type V = Seq<char>;

    open spec fn view(&self) -> Seq<char> {
        self.0@
    }
}

/// `base` joined with `seg` as a path: an absolute `seg` replaces `base`;
/// otherwise a separator goes between them unless `base` already ends with
/// one.
pub open spec fn join(base: Seq<char>, seg: Seq<char>) -> Seq<char> {
    if seg.len() > 0 && seg[0] == '/' {
        seg
    } else if base.len() > 0 && base.last() == '/' {
        base + seg
    } else {
        base + seq!['/'] + seg
    }
}

/// Joins `seg` to the path `base`.
pub fn join_path(base: &mut String, seg: &str)
    ensures
        final(base)@ == join(old(base)@, seg@),
{
    proof {
        reveal_strlit("/");
    }
    if seg.unicode_len() > 0 && seg.get_char(0) == '/' {
        *base = String::from_str(seg);
        return;
    }
    let n = base.as_str().unicode_len();
    if n > 0 && base.as_str().get_char(n - 1) == '/' {
        base.append(seg);
    } else {
        base.append("/");
        base.append(seg);
    }
    assert(final(base)@ =~= join(old(base)@, seg@));
}

#[verifier::external_type_specification]
#[verifier::external_body]
#[verifier::reject_recursive_types(K)]
#[verifier::reject_recursive_types(V)]
#[verifier::reject_recursive_types(S)]
pub struct ExLinkedHashMap<K, V, S>(hashlink::LinkedHashMap<K, V, S>);

#[verifier::external_type_specification]
#[verifier::external_body]
pub struct ExDefaultHashBuilder(hashlink::DefaultHashBuilder);

/// A volume of a package.
#[derive(Debug)]
pub enum Volume {
    /// The package's own data.
    Data,
    /// A volume of another package.
    Pointer { package_id: PackageId, volume_id: VolumeId, path: String, read_only: bool },
    /// The certificate of an interface.
    Certificate { interface_id: InterfaceId },
    /// The hidden service keys of an interface.
    HiddenService { interface_id: InterfaceId },
}

/// Where the volume lies for package `pkg` and volume `vol`.
pub open spec fn volume_path(v: Volume, pkg: Seq<char>, vol: Seq<char>) -> Seq<char> {
    match v {
        Volume::Data => join(join(join(APP_DATA_DIR@, pkg), "volumes"@), vol),
        Volume::Pointer { package_id, volume_id, path, .. } => join(
            join(join(join(APP_DATA_DIR@, package_id@), "volumes"@), volume_id@),
            path@,
        ),
        Volume::Certificate { interface_id } => join(
            join(join(APP_DATA_DIR@, pkg), "certificates"@),
            interface_id@,
        ),
        Volume::HiddenService { interface_id } => join(
            join(join(APP_DATA_DIR@, pkg), "hidden-services"@),
            interface_id@,
        ),
    }
}

/// The volumes of a package, by identifier, in insertion order.
#[derive(Debug)]
pub struct Volumes(pub hashlink::LinkedHashMap<VolumeId, Volume>);

/// The entries of a volume map, in their order: each key's text and its
/// volume.
pub uninterp spec fn volume_entries(m: hashlink::LinkedHashMap<VolumeId, Volume>) -> Seq<(Seq<char>, Volume)>;

/// The volume of the first entry with key `k`.
pub open spec fn volume_lookup(e: Seq<(Seq<char>, Volume)>, k: Seq<char>) -> Option<Volume> {
    if exists|i: int| 0 <= i < e.len() && #[trigger] e[i].0 == k {
        Some(e[choose|i: int| 0 <= i < e.len() && #[trigger] e[i].0 == k && forall|j: int| 0 <= j < i ==> e[j].0 != k].1)
    } else {
        None
    }
}

/// Relies on `LinkedHashMap::get`: the volume stored under the key, whose
/// keys are unique.
#[verifier::external_body]
fn volume_get<'a>(m: &'a hashlink::LinkedHashMap<VolumeId, Volume>, k: &VolumeId) -> (r: Option<&'a Volume>)
    ensures
        match r {
            Some(v) => volume_lookup(volume_entries(*m), k@) == Some(*v),
            None => volume_lookup(volume_entries(*m), k@) is None,
        },
{
    m.get(k)
}

impl Volumes {
    /// Where the volume `volume_id` of package `pkg_id` lies, where the
    /// package has that volume.
    pub fn get_path_for(&self, pkg_id: &PackageId, volume_id: &VolumeId) -> (r: Option<String>)
        ensures
            match volume_lookup(volume_entries(self.0), volume_id@) {
                Some(v) => r matches Some(p) && p@ == volume_path(v, pkg_id@, volume_id@),
                None => r is None,
            },
    {
        match volume_get(&self.0, volume_id) {
            Some(v) => Some(v.path_for(pkg_id, volume_id)),
            None => None,
        }
    }
}

impl Volume {
    /// The path of the volume on disk.
    pub fn path_for(&self, pkg_id: &PackageId, volume_id: &VolumeId) -> (r: String)
        ensures
            r@ == volume_path(*self, pkg_id@, volume_id@),
    {
        let mut p = String::from_str(APP_DATA_DIR);
        match self {
            Volume::Data => {
                join_path(&mut p, pkg_id.as_str());
                join_path(&mut p, "volumes");
                join_path(&mut p, volume_id.0.as_str());
            },
            Volume::Pointer { package_id, volume_id, path, .. } => {
                join_path(&mut p, package_id.as_str());
                join_path(&mut p, "volumes");
                join_path(&mut p, volume_id.0.as_str());
                join_path(&mut p, path.as_str());
            },
            Volume::Certificate { interface_id } => {
                join_path(&mut p, pkg_id.as_str());
                join_path(&mut p, "certificates");
                join_path(&mut p, interface_id.0.as_str());
            },
            Volume::HiddenService { interface_id } => {
                join_path(&mut p, pkg_id.as_str());
                join_path(&mut p, "hidden-services");
                join_path(&mut p, interface_id.0.as_str());
            },
        }
        p
    }

    /// Whether the package may only read the volume.
    pub fn read_only(&self) -> (r: bool)
        ensures
            r == match *self {
                Volume::Data => false,
                Volume::Pointer { read_only, .. } => read_only,
                Volume::Certificate { .. } => true,
                Volume::HiddenService { .. } => true,
            },
    {
        match self {
            Volume::Data => false,
            Volume::Pointer { read_only, .. } => *read_only,
            Volume::Certificate { .. } => true,
            Volume::HiddenService { .. } => true,
        }
    }
}

} // verus!
