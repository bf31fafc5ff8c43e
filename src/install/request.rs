//! The entry point's argument: a package identifier, optionally followed by
//! `@` and a version range.

use vstd::prelude::*;
use vstd::string::{StrSliceExecFns, StringExecFns};

use crate::error::Error;
use crate::id::{valid_id, all_id_chars};
use crate::parse::{no_run_of, no_run_of_usize_max};

verus! {

/// The normalized text of a version range, as `emver` parses and prints it,
/// or nothing where the text is no range.
pub uninterp spec fn emver_range_text(s: Seq<char>) -> Option<Seq<char>>;

/// Relies on `emver::VersionRange`'s `FromStr` and `Display`: the parsed
/// range printed back, or `None` where parsing fails. The parser adds one to
/// a version number in caret, tilde and wildcard ranges, which overflows on
/// a number equal to `usize::MAX`; such texts are left out.
#[verifier::external_body]
fn normalize_range(s: &str) -> (r: Option<String>)
    requires
        no_run_of(s@, usize::MAX as nat),
    ensures
        match r {
            Some(t) => emver_range_text(s@) == Some(t@),
            None => emver_range_text(s@) is None,
        },
{
    s.parse::<emver::VersionRange>().ok().map(|v| v.to_string())
}

/// The position of the first `@`, where there is one.
pub open spec fn first_at(s: Seq<char>, i: int) -> bool {
    &&& 0 <= i < s.len()
    &&& s[i] == '@'
    &&& forall|j: int| 0 <= j < i ==> s[j] != '@'
}

/// The identifier part and the range part of the argument; the range is `*`
/// where there is no `@`.
pub open spec fn split_target(s: Seq<char>) -> (Seq<char>, Seq<char>) {
    if exists|i: int| first_at(s, i) {
        let i = choose|i: int| first_at(s, i);
        (s.subrange(0, i), s.subrange(i + 1, s.len() as int))
    } else {
        (s, "*"@)
    }
}

/// What an install asks the registry for.
#[derive(Debug)]
pub struct InstallRequest {
    pub id: String,
    /// The version range, normalized.
    pub version_range: String,
    /// Where the manifest is fetched from.
    pub manifest_url: String,
    /// Where the archive is fetched from.
    pub s9pk_url: String,
}

/// Splits the argument at its first `@`.
pub fn split_install_target(target: &str) -> (r: (&str, &str))
    ensures
        (r.0@, r.1@) == split_target(target@),
{
    let n = target.unicode_len();
    let mut i: usize = 0;
    while i < n
        invariant
            n == target@.len(),
            i <= n,
            forall|j: int| 0 <= j < i ==> target@[j] != '@',
        decreases n - i,
    {
        if target.get_char(i) == '@' {
            proof {
                assert(first_at(target@, i as int));
                let c = choose|c: int| first_at(target@, c);
                assert(c == i) by {
                    if c < i {
                        assert(target@[c] != '@');
                    } else if c > i {
                        assert(target@[i as int] != '@');
                    }
                }
            }
            return (target.substring_char(0, i), target.substring_char(i + 1, n));
        }
        i = i + 1;
    }
    proof {
        reveal_strlit("*");
    }
    (target, "*")
}

/// The range part can be handed to the range parser: none of its numbers is
/// `usize::MAX`, and it parses.
pub open spec fn range_accepted(range: Seq<char>) -> bool {
    no_run_of(range, usize::MAX as nat) && emver_range_text(range) is Some
}

/// Turns the argument of an install into the registry requests: the
/// identifier must be valid, no number of the range may be `usize::MAX`,
/// and the range must parse.
pub fn install_request(target: &str, registry_url: &str) -> (r: Result<InstallRequest, Error>)
    ensures
        r matches Err(e) ==> (e == Error::InvalidIdentifier && !valid_id(split_target(target@).0)) || (
        e == Error::InvalidVersion && valid_id(split_target(target@).0) && !range_accepted(
            split_target(target@).1,
        )),
        r is Ok <==> valid_id(split_target(target@).0) && range_accepted(split_target(target@).1),
        r matches Ok(q) ==> {
            let id = split_target(target@).0;
            let range = emver_range_text(split_target(target@).1)->Some_0;
            &&& q.id@ == id
            &&& q.version_range@ == range
            &&& q.manifest_url@ == registry_url@ + "/package/manifest/"@ + id + "?version="@ + range
            &&& q.s9pk_url@ == registry_url@ + "/package/"@ + id + ".s9pk?version="@ + range
        },
{
    let (id, range_text) = split_install_target(target);
    if !all_id_chars(id) {
        return Err(Error::InvalidIdentifier);
    }
    if !no_run_of_usize_max(range_text) {
        return Err(Error::InvalidVersion);
    }
    let range = match normalize_range(range_text) {
        Some(t) => t,
        None => {
            return Err(Error::InvalidVersion);
        },
    };
    let mut manifest_url = String::from_str(registry_url);
    manifest_url.append("/package/manifest/");
    manifest_url.append(id);
    manifest_url.append("?version=");
    manifest_url.append(range.as_str());
    let mut s9pk_url = String::from_str(registry_url);
    s9pk_url.append("/package/");
    s9pk_url.append(id);
    s9pk_url.append(".s9pk?version=");
    s9pk_url.append(range.as_str());
    Ok(InstallRequest { id: String::from_str(id), version_range: range, manifest_url, s9pk_url })
}

} // verus!
