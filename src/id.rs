//! Validated identifiers: lowercase ASCII letters and hyphens only.

use vstd::prelude::*;
use vstd::string::StrSliceExecFns;

verus! {

/// A character allowed in an identifier.
pub open spec fn is_id_char(c: char) -> bool {
    ('a' <= c && c <= 'z') || c == '-'
}

/// Every character of `s` is allowed in an identifier.
pub open spec fn valid_id(s: Seq<char>) -> bool {
    forall|i: int| 0 <= i < s.len() ==> is_id_char(#[trigger] s[i])
}

/// Checks the characters of `s` one by one.
pub fn all_id_chars(s: &str) -> (r: bool)
    ensures
        r == valid_id(s@),
{
    let n = s.unicode_len();
    let mut i: usize = 0;
    while i < n
        invariant
            n == s@.len(),
            i <= n,
            forall|j: int| 0 <= j < i ==> is_id_char(#[trigger] s@[j]),
        decreases n - i,
    {
        let c = s.get_char(i);
        if !(('a' <= c && c <= 'z') || c == '-') {
            return false;
        }
        i = i + 1;
    }
    true
}

/// The error of an identifier that holds a character other than a lowercase
/// ASCII letter or a hyphen.
#[derive(Debug, Clone, Copy, PartialEq, Eq)]
pub struct InvalidId;

/// A validated identifier.
#[derive(Debug, PartialEq, Eq, Hash)]
pub struct Id(String);

impl Clone for Id {
    fn clone(&self) -> (r: Self)
        ensures
            r == *self,
    {
        proof {
            use_type_invariant(self);
        }
        Id(self.0.clone())
    }
}

impl View for Id {
    type V = Seq<char>;

    closed spec fn view(&self) -> Seq<char> {
        self.0@
    }
}

impl Id {
    #[verifier::type_invariant]
    spec fn inv(self) -> bool {
        valid_id(self.0@)
    }

    /// Accepts `value` when it holds only lowercase ASCII letters and hyphens.
    pub fn try_from(value: String) -> (r: Result<Id, InvalidId>)
        ensures
            r is Ok <==> valid_id(value@),
            r matches Ok(id) ==> id@ == value@,
    {
        if all_id_chars(value.as_str()) {
            Ok(Id(value))
        } else {
            Err(InvalidId)
        }
    }

    pub fn as_str(&self) -> (r: &str)
        ensures
            r@ == self@,
            valid_id(r@),
    {
        proof {
            use_type_invariant(self);
        }
        self.0.as_str()
    }

}

/// The identifier of a container image within a package.
#[derive(Debug, Clone, PartialEq, Eq, Hash)]
pub struct ImageId(pub Id);

/// The identifier of a network interface within a package.
#[derive(Debug, Clone, PartialEq, Eq, Hash)]
pub struct InterfaceId(pub Id);

} // verus!
