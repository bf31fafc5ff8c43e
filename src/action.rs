//! How a container action exchanges data on its standard streams.

use vstd::prelude::*;
use vstd::string::StringExecFns;

use crate::id::ImageId;
use crate::parse::views;
use crate::s9pk::id::PackageId;
use crate::s9pk::manifest::{version_text, Version};
use crate::text::{decimal, push_decimal};
use crate::volume::{volume_entries, volume_lookup, volume_path, VolumeId, Volumes};

verus! {

/// The encoding of an action's input and output.
#[derive(Clone, Copy, Debug, PartialEq, Eq, Structural)]
pub enum DockerIOFormat {
    Json,
    Yaml,
    Cbor,
    Toml,
}

impl DockerIOFormat {
    /// The name of the format.
    pub fn as_str(&self) -> (r: &'static str)
        ensures
            r@ == match *self {
                DockerIOFormat::Json => "JSON"@,
                DockerIOFormat::Yaml => "YAML"@,
                DockerIOFormat::Cbor => "CBOR"@,
                DockerIOFormat::Toml => "TOML"@,
            },
    {
        match self {
            DockerIOFormat::Json => "JSON",
            DockerIOFormat::Yaml => "YAML",
            DockerIOFormat::Cbor => "CBOR",
            DockerIOFormat::Toml => "TOML",
        }
    }
}

impl View for ImageId {
    type V = Seq<char>;

    open spec fn view(&self) -> Seq<char> {
        self.0@
    }
}

/// The name of a package's image in the container runtime.
pub open spec fn image_name(image: Seq<char>, pkg: Seq<char>, v: Version) -> Seq<char> {
    "start9/"@ + pkg + seq!['/'] + image + seq![':'] + version_text(v)
}

impl ImageId {
    /// The name of this image of package `pkg_id` at version `pkg_version`.
    pub fn for_package(&self, pkg_id: &PackageId, pkg_version: Version) -> (r: String)
        ensures
            r@ == image_name(self@, pkg_id@, pkg_version),
    {
        proof {
            reveal_strlit("/");
            reveal_strlit(":");
        }
        let mut s = String::from_str("start9/");
        s.append(pkg_id.as_str());
        s.append("/");
        s.append(self.0.as_str());
        s.append(":");
        let v = pkg_version.as_string();
        s.append(v.as_str());
        assert(s@ =~= image_name(self@, pkg_id@, pkg_version));
        s
    }
}

/// The entries of a mount map, in their order: each volume's identifier and
/// where it is mounted in the container.
pub uninterp spec fn mount_entries(m: hashlink::LinkedHashMap<VolumeId, String>) -> Seq<(Seq<char>, Seq<char>)>;

/// Relies on `LinkedHashMap::iter`: every entry, in insertion order.
#[verifier::external_body]
fn mount_list<'a>(m: &'a hashlink::LinkedHashMap<VolumeId, String>) -> (r: Vec<(&'a VolumeId, &'a String)>)
    ensures
        r@.len() == mount_entries(*m).len(),
        forall|i: int|
            0 <= i < r@.len() ==> (#[trigger] r@[i]).0@ == mount_entries(*m)[i].0 && r@[i].1@
                == mount_entries(*m)[i].1,
{
    m.iter().collect()
}

/// An action that runs in a container of the package's image.
#[derive(Debug)]
pub struct DockerAction {
    pub image: ImageId,
    pub entrypoint: String,
    pub args: Vec<String>,
    /// Where each volume is mounted in the container.
    pub mounts: hashlink::LinkedHashMap<VolumeId, String>,
    pub io_format: Option<DockerIOFormat>,
    pub shm_size_mb: Option<usize>,
}

/// The `--mount` arguments of the mounts whose volume the package has.
pub open spec fn mount_args(ms: Seq<(Seq<char>, Seq<char>)>, vols: Seq<(Seq<char>, crate::volume::Volume)>, pkg: Seq<char>) -> Seq<Seq<char>>
    decreases ms.len(),
{
    if ms.len() == 0 {
        Seq::empty()
    } else {
        let prev = mount_args(ms.drop_last(), vols, pkg);
        let vid = ms.last().0;
        let dst = ms.last().1;
        match volume_lookup(vols, vid) {
            Some(v) => prev + seq![
                "--mount"@,
                "type=bind,src="@ + volume_path(v, pkg, vid) + ",dst="@ + dst,
            ],
            None => prev,
        }
    }
}

/// The arguments that run the action: mounts, shared memory size, entry
/// point, image and the action's own arguments.
pub open spec fn action_args(a: DockerAction, pkg: Seq<char>, v: Version, vols: Volumes) -> Seq<Seq<char>> {
    mount_args(mount_entries(a.mounts), volume_entries(vols.0), pkg) + (match a.shm_size_mb {
        Some(n) => seq!["--shm-size"@, decimal(n as nat) + "m"@],
        None => Seq::empty(),
    }) + seq!["--entrypoint"@, a.entrypoint@, image_name(a.image@, pkg, v)] + views(a.args@)
}

fn push_arg(args: &mut Vec<String>, a: String)
    ensures
        views(final(args)@) == views(old(args)@).push(a@),
{
    args.push(a);
    assert(views(final(args)@) =~= views(old(args)@).push(a@));
}

impl DockerAction {
    /// The container's name: package and image.
    pub fn container_name(&self, pkg_id: &PackageId) -> (r: String)
        ensures
            r@ == pkg_id@ + seq!['_'] + self.image@,
    {
        proof {
            reveal_strlit("_");
        }
        let mut s = String::from_str(pkg_id.as_str());
        s.append("_");
        s.append(self.image.0.as_str());
        assert(s@ =~= pkg_id@ + seq!['_'] + self.image@);
        s
    }

    /// The arguments that run the action for package `pkg_id`.
    pub fn docker_args(&self, pkg_id: &PackageId, pkg_version: Version, volumes: &Volumes) -> (r: Vec<String>)
        ensures
            views(r@) == action_args(*self, pkg_id@, pkg_version, *volumes),
    {
        let ms = mount_list(&self.mounts);
        let ghost me = mount_entries(self.mounts);
        let mut res: Vec<String> = Vec::new();
        let mut i: usize = 0;
        assert(me.take(0) =~= Seq::<(Seq<char>, Seq<char>)>::empty());
        while i < ms.len()
            invariant
                ms@.len() == me.len(),
                forall|j: int| 0 <= j < ms@.len() ==> (#[trigger] ms@[j]).0@ == me[j].0 && ms@[j].1@ == me[j].1,
                me == mount_entries(self.mounts),
                i <= ms@.len(),
                views(res@) == mount_args(me.take(i as int), volume_entries(volumes.0), pkg_id@),
            decreases ms@.len() - i,
        {
            let (volume_id, dst) = ms[i];
            assert(me.take(i + 1).drop_last() =~= me.take(i as int));
            assert(me.take(i + 1).last() == me[i as int]);
            match volumes.get_path_for(pkg_id, volume_id) {
                Some(src) => {
                    push_arg(&mut res, String::from_str("--mount"));
                    let mut m = String::from_str("type=bind,src=");
                    m.append(src.as_str());
                    m.append(",dst=");
                    m.append(dst.as_str());
                    push_arg(&mut res, m);
                    assert(views(res@) =~= mount_args(me.take(i + 1), volume_entries(volumes.0), pkg_id@));
                },
                None => {},
            }
            i = i + 1;
        }
        assert(me.take(ms@.len() as int) =~= me);
        let ghost base = views(res@);
        match self.shm_size_mb {
            Some(n) => {
                push_arg(&mut res, String::from_str("--shm-size"));
                let mut t = String::new();
                push_decimal(&mut t, n as u64);
                t.append("m");
                push_arg(&mut res, t);
            },
            None => {},
        }
        push_arg(&mut res, String::from_str("--entrypoint"));
        push_arg(&mut res, self.entrypoint.clone());
        push_arg(&mut res, self.image.for_package(pkg_id, pkg_version));
        let ghost head = views(res@);
        let mut k: usize = 0;
        while k < self.args.len()
            invariant
                k <= self.args@.len(),
                views(res@) == head + views(self.args@).take(k as int),
            decreases self.args@.len() - k,
        {
            push_arg(&mut res, self.args[k].clone());
            k = k + 1;
            assert(views(res@) =~= head + views(self.args@).take(k as int));
        }
        assert(views(self.args@).take(self.args@.len() as int) =~= views(self.args@));
        assert(views(res@) =~= action_args(*self, pkg_id@, pkg_version, *volumes));
        res
    }
}

} // verus!
