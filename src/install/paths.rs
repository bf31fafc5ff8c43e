//! Where an install keeps the archive and the unpacked public assets.

use vstd::prelude::*;
use vstd::string::{StrSliceExecFns, StringExecFns};

use crate::db::model::StaticFiles;
use crate::s9pk::id::PackageId;
use crate::s9pk::manifest::{version_text, Version};

verus! {

/// The directory under which downloaded archives are cached.
pub const PKG_CACHE: &'static str = "/mnt/embassy-os/cache/packages";

/// The directory under which public assets are unpacked.
pub const PKG_PUBLIC_DIR: &'static str = "/mnt/embassy-os/public/package-data";

/// The cache file of an archive: keyed by package and version.
pub open spec fn cache_path_text(id: Seq<char>, v: Version) -> Seq<char> {
    PKG_CACHE@ + seq!['/'] + id + seq!['/'] + version_text(v) + seq!['/'] + id + ".s9pk"@
}

/// The directory of a package's public assets: keyed by package and version.
pub open spec fn public_dir_text(id: Seq<char>, v: Version) -> Seq<char> {
    PKG_PUBLIC_DIR@ + seq!['/'] + id + seq!['/'] + version_text(v)
}

/// The file name of the icon: `icon`, with the icon type as its extension
/// where there is one.
pub open spec fn icon_name(icon_type: Seq<char>) -> Seq<char> {
    if icon_type.len() == 0 {
        "icon"@
    } else {
        "icon."@ + icon_type
    }
}

fn push_dir(s: &mut String, id: &PackageId, v: Version)
    ensures
        final(s)@ == old(s)@ + seq!['/'] + id@ + seq!['/'] + version_text(v),
{
    proof {
        reveal_strlit("/");
    }
    s.append("/");
    s.append(id.as_str());
    s.append("/");
    let vt = v.as_string();
    s.append(vt.as_str());
    assert(final(s)@ =~= old(s)@ + seq!['/'] + id@ + seq!['/'] + version_text(v));
}

/// The path of the cache file of an archive.
pub fn cache_path(id: &PackageId, v: Version) -> (r: String)
    ensures
        r@ == cache_path_text(id@, v),
{
    proof {
        reveal_strlit("/");
    }
    let mut s = String::from_str(PKG_CACHE);
    push_dir(&mut s, id, v);
    s.append("/");
    s.append(id.as_str());
    s.append(".s9pk");
    assert(s@ =~= cache_path_text(id@, v));
    s
}

/// The directory of a package's public assets.
pub fn public_dir(id: &PackageId, v: Version) -> (r: String)
    ensures
        r@ == public_dir_text(id@, v),
{
    let mut s = String::from_str(PKG_PUBLIC_DIR);
    push_dir(&mut s, id, v);
    s
}

/// The asset paths of a package: what `StaticFiles::local` gives.
pub open spec fn local_files(sf: StaticFiles, id: Seq<char>, v: Version, icon_type: Seq<char>) -> bool {
    &&& sf.license@ == public_dir_text(id, v) + "/LICENSE.md"@
    &&& sf.instructions@ == public_dir_text(id, v) + "/INSTRUCTIONS.md"@
    &&& sf.icon@ == public_dir_text(id, v) + seq!['/'] + icon_name(icon_type)
}

impl StaticFiles {
    /// The paths where a package's license, instructions and icon are
    /// unpacked.
    pub fn local(id: &PackageId, v: Version, icon_type: &str) -> (r: StaticFiles)
        ensures
            local_files(r, id@, v, icon_type@),
    {
        proof {
            reveal_strlit("/");
        }
        let dir = public_dir(id, v);
        let mut license = dir.clone();
        license.append("/LICENSE.md");
        let mut instructions = dir.clone();
        instructions.append("/INSTRUCTIONS.md");
        let mut icon = dir.clone();
        icon.append("/");
        if icon_type.unicode_len() == 0 {
            icon.append("icon");
        } else {
            icon.append("icon.");
            icon.append(icon_type);
        }
        assert(icon@ =~= public_dir_text(id@, v) + seq!['/'] + icon_name(icon_type@));
        StaticFiles { license, instructions, icon }
    }
}

} // verus!
