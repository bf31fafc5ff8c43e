//! Package identifiers.

use vstd::prelude::*;
use vstd::string::StrSliceExecFns;

use crate::id::{valid_id, Id, InvalidId};

verus! {

/// The error of a package identifier that holds a character other than a
/// lowercase ASCII letter or a hyphen.
#[derive(Debug, Clone, Copy, PartialEq, Eq)]
pub struct InvalidPackageId;

/// A validated package identifier.
#[derive(Debug, PartialEq, Eq, Hash)]
pub struct PackageId(Id);

impl Clone for PackageId {
    fn clone(&self) -> (r: Self)
        ensures
            r == *self,
    {
        PackageId(self.0.clone())
    }
}

impl View for PackageId {
    type V = Seq<char>;

    closed spec fn view(&self) -> Seq<char> {
        self.0@
    }
}

impl PackageId {
    /// Accepts `value` when it holds only lowercase ASCII letters and hyphens.
    pub fn try_from(value: String) -> (r: Result<PackageId, InvalidPackageId>)
        ensures
            r is Ok <==> valid_id(value@),
            r matches Ok(id) ==> id@ == value@,
    {
        match Id::try_from(value) {
            Ok(id) => Ok(PackageId(id)),
            Err(InvalidId) => Err(InvalidPackageId),
        }
    }

    pub fn as_str(&self) -> (r: &str)
        ensures
            r@ == self@,
            valid_id(r@),
    {
        self.0.as_str()
    }

    /// Two identifiers are the same package exactly when their text is equal.
    pub fn same(&self, other: &PackageId) -> (r: bool)
        ensures
            r == (self@ == other@),
    {
        str_eq(self.as_str(), other.as_str())
    }
}

/// Character-by-character equality of two strings.
pub fn str_eq(a: &str, b: &str) -> (r: bool)
    ensures
        r == (a@ == b@),
{
    let n = a.unicode_len();
    if n != b.unicode_len() {
        return false;
    }
    let mut i: usize = 0;
    while i < n
        invariant
            n == a@.len(),
            n == b@.len(),
            i <= n,
            forall|k: int| 0 <= k < i ==> a@[k] == b@[k],
        decreases n - i,
    {
        if a.get_char(i) != b.get_char(i) {
            return false;
        }
        i = i + 1;
    }
    assert(a@ =~= b@);
    true
}

} // verus!
