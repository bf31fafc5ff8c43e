//! Dependency maps, kept in an `indexmap::IndexMap` in insertion order.

use vstd::prelude::*;

use crate::s9pk::id::PackageId;

verus! {

#[verifier::external_type_specification]
#[verifier::external_body]
#[verifier::reject_recursive_types(K)]
#[verifier::reject_recursive_types(V)]
#[verifier::reject_recursive_types(S)]
pub struct ExIndexMap<K, V, S>(indexmap::IndexMap<K, V, S>);

/// What is known of one edge of the dependency graph.
#[derive(Clone, Copy, Debug, PartialEq, Eq, Structural)]
pub struct CurrentDependencyInfo {
    /// The dependency is known to be satisfied.
    pub satisfied: bool,
}

impl CurrentDependencyInfo {
    /// An edge not yet known to be satisfied.
    pub fn unknown() -> (r: CurrentDependencyInfo)
        ensures
            !r.satisfied,
    {
        CurrentDependencyInfo { satisfied: false }
    }
}

/// A map from package identifier to edge information, in insertion order.
pub type DependencyMap = indexmap::IndexMap<PackageId, CurrentDependencyInfo>;

/// The entries of a dependency map, in their order: each key's text and its
/// value.
pub uninterp spec fn dependency_entries(m: DependencyMap) -> Seq<(Seq<char>, CurrentDependencyInfo)>;

/// `k` is a key of the entries.
pub open spec fn has_key(e: Seq<(Seq<char>, CurrentDependencyInfo)>, k: Seq<char>) -> bool {
    exists|i: int| 0 <= i < e.len() && #[trigger] e[i].0 == k
}

/// `i` is the first position of key `k`.
pub open spec fn first_of(e: Seq<(Seq<char>, CurrentDependencyInfo)>, k: Seq<char>, i: int) -> bool {
    &&& 0 <= i < e.len()
    &&& e[i].0 == k
    &&& forall|j: int| 0 <= j < i ==> #[trigger] e[j].0 != k
}

/// The value of the first entry with key `k`; meaningful where
/// `has_key(e, k)`.
pub open spec fn value_of(e: Seq<(Seq<char>, CurrentDependencyInfo)>, k: Seq<char>) -> CurrentDependencyInfo {
    e[choose|i: int| first_of(e, k, i)].1
}

/// Relies on `IndexMap::new`: the map is empty.
#[verifier::external_body]
pub(crate) fn new_dependency_map() -> (r: DependencyMap)
    ensures
        dependency_entries(r) == Seq::<(Seq<char>, CurrentDependencyInfo)>::empty(),
{
    indexmap::IndexMap::new()
}

/// Relies on `IndexMap::insert`: a new key goes last; an existing key keeps
/// its place and takes the new value.
#[verifier::external_body]
pub(crate) fn insert_dependency(m: &mut DependencyMap, k: PackageId, v: CurrentDependencyInfo)
    ensures
        !has_key(dependency_entries(*old(m)), k@) ==> dependency_entries(*final(m))
            == dependency_entries(*old(m)).push((k@, v)),
        forall|i: int|
            #[trigger] first_of(dependency_entries(*old(m)), k@, i) ==> dependency_entries(*final(m))
                == dependency_entries(*old(m)).update(i, (k@, v)),
{
    m.insert(k, v);
}

/// Relies on `IndexMap::len`: the number of entries.
#[verifier::external_body]
pub(crate) fn dependency_count(m: &DependencyMap) -> (r: usize)
    ensures
        r == dependency_entries(*m).len(),
{
    m.len()
}

/// Relies on `IndexMap::get_index`: the entry at position `i`.
#[verifier::external_body]
pub(crate) fn dependency_at(m: &DependencyMap, i: usize) -> (r: (&PackageId, CurrentDependencyInfo))
    requires
        i < dependency_entries(*m).len(),
    ensures
        r.0@ == dependency_entries(*m)[i as int].0,
        r.1 == dependency_entries(*m)[i as int].1,
{
    let (k, v) = m.get_index(i).unwrap();
    (k, *v)
}

/// Looks up `k`.
pub fn get_dependency(m: &DependencyMap, k: &PackageId) -> (r: Option<CurrentDependencyInfo>)
    ensures
        r is Some <==> has_key(dependency_entries(*m), k@),
        r matches Some(v) ==> v == value_of(dependency_entries(*m), k@),
{
    let n = dependency_count(m);
    let ghost e = dependency_entries(*m);
    let mut i: usize = 0;
    while i < n
        invariant
            n == e.len(),
            e == dependency_entries(*m),
            i <= n,
            forall|j: int| 0 <= j < i ==> #[trigger] e[j].0 != k@,
        decreases n - i,
    {
        let (key, v) = dependency_at(m, i);
        if key.same(k) {
            proof {
                assert(first_of(e, k@, i as int));
                let c = choose|j: int| first_of(e, k@, j);
                assert(c == i) by {
                    if c < i {
                        assert(e[c].0 != k@);
                    } else if c > i {
                        assert(e[i as int].0 != k@);
                    }
                }
            }
            return Some(v);
        }
        i = i + 1;
    }
    None
}

/// The identifiers of the map, in order.
pub fn dependency_keys(m: &DependencyMap) -> (r: Vec<PackageId>)
    ensures
        r@.len() == dependency_entries(*m).len(),
        forall|i: int| 0 <= i < r@.len() ==> #[trigger] r@[i]@ == dependency_entries(*m)[i].0,
{
    let n = dependency_count(m);
    let mut out: Vec<PackageId> = Vec::new();
    let mut i: usize = 0;
    while i < n
        invariant
            n == dependency_entries(*m).len(),
            i <= n,
            out@.len() == i,
            forall|j: int| 0 <= j < i ==> #[trigger] out@[j]@ == dependency_entries(*m)[j].0,
        decreases n - i,
    {
        let (key, _) = dependency_at(m, i);
        out.push(key.clone());
        i = i + 1;
    }
    out
}

} // verus!
