//! The reverse view of the dependency graph, recomputed by scanning the
//! registry.

use vstd::prelude::*;

use super::dependencies::{
    dependency_entries, get_dependency, has_key, insert_dependency, new_dependency_map,
    value_of, CurrentDependencyInfo, DependencyMap,
};
use super::model::{edges_of, keys_distinct, PackageDataEntry, Registry, Slots};
use crate::s9pk::id::PackageId;

verus! {

pub type Edges = Seq<(Seq<char>, CurrentDependencyInfo)>;

/// The slot's installed record names `t` among its current dependencies.
pub open spec fn depends_on(e: PackageDataEntry, t: Seq<char>) -> bool {
    match edges_of(e) {
        Some(es) => has_key(es, t),
        None => false,
    }
}

/// What the slot's installed record holds for its edge to `t`.
pub open spec fn edge_value(e: PackageDataEntry, t: Seq<char>) -> CurrentDependencyInfo {
    value_of(edges_of(e)->Some_0, t)
}

/// The packages of `s`, other than `t` itself, whose installed record depends
/// on `t`, in registry order, each with its edge information.
pub open spec fn dependents_seq(s: Slots, t: Seq<char>) -> Edges
    decreases s.len(),
{
    if s.len() == 0 {
        Seq::empty()
    } else {
        let prev = dependents_seq(s.drop_last(), t);
        let last = s.last();
        if last.0@ != t && depends_on(last.1, t) {
            prev.push((last.0@, edge_value(last.1, t)))
        } else {
            prev
        }
    }
}

/// Every key of the scan is a package of `s`.
pub proof fn lemma_dependents_keys(s: Slots, t: Seq<char>)
    ensures
        forall|x: int|
            #![trigger dependents_seq(s, t)[x]]
            0 <= x < dependents_seq(s, t).len() ==> exists|j: int|
                0 <= j < s.len() && #[trigger] s[j].0@ == dependents_seq(s, t)[x].0,
    decreases s.len(),
{
    if s.len() > 0 {
        let p = s.drop_last();
        lemma_dependents_keys(p, t);
        assert forall|x: int|
            #![trigger dependents_seq(s, t)[x]]
            0 <= x < dependents_seq(s, t).len() implies exists|j: int|
                0 <= j < s.len() && #[trigger] s[j].0@ == dependents_seq(s, t)[x].0 by {
            if x < dependents_seq(p, t).len() {
                assert(dependents_seq(s, t)[x] == dependents_seq(p, t)[x]);
                let j = choose|j: int| 0 <= j < p.len() && #[trigger] p[j].0@ == dependents_seq(p, t)[x].0;
                assert(s[j] == p[j]);
            } else {
                assert(s[s.len() - 1].0@ == dependents_seq(s, t)[x].0);
            }
        }
    }
}

/// A package of `s` other than `t` that depends on `t` is listed by the scan.
pub proof fn lemma_dependent_listed(s: Slots, t: Seq<char>, j: int)
    requires
        0 <= j < s.len(),
        s[j].0@ != t,
        depends_on(s[j].1, t),
    ensures
        has_key(dependents_seq(s, t), s[j].0@),
    decreases s.len(),
{
    let d = dependents_seq(s, t);
    if j == s.len() - 1 {
        assert(d[d.len() - 1].0 == s[j].0@);
    } else {
        let p = s.drop_last();
        assert(p[j] == s[j]);
        lemma_dependent_listed(p, t, j);
        let dp = dependents_seq(p, t);
        let x = choose|x: int| 0 <= x < dp.len() && #[trigger] dp[x].0 == s[j].0@;
        assert(d[x] == dp[x]);
    }
}

/// The scan reads only the packages and their current dependencies.
pub proof fn lemma_dependents_frame(s1: Slots, s2: Slots, t: Seq<char>)
    requires
        s1.len() == s2.len(),
        forall|j: int| 0 <= j < s1.len() ==> (#[trigger] s1[j]).0@ == s2[j].0@ && edges_of(s1[j].1) == edges_of(s2[j].1),
    ensures
        dependents_seq(s1, t) == dependents_seq(s2, t),
    decreases s1.len(),
{
    if s1.len() > 0 {
        let p1 = s1.drop_last();
        let p2 = s2.drop_last();
        assert forall|j: int| 0 <= j < p1.len() implies (#[trigger] p1[j]).0@ == p2[j].0@ && edges_of(p1[j].1) == edges_of(p2[j].1) by {
            assert(p1[j] == s1[j]);
            assert(p2[j] == s2[j]);
        }
        lemma_dependents_frame(p1, p2, t);
        let l = s1.len() - 1;
        assert(s1[l].0@ == s2[l].0@ && edges_of(s1[l].1) == edges_of(s2[l].1));
    }
}

/// Scans the registry for the packages other than `target` whose installed
/// record depends on `target`.
pub fn current_dependents(reg: &Registry, target: &PackageId) -> (r: DependencyMap)
    requires
        reg.wf(),
    ensures
        dependency_entries(r) == dependents_seq(reg.entries(), target@),
{
    let ghost s = reg.entries();
    let n = reg.len();
    let mut m = new_dependency_map();
    let mut i: usize = 0;
    assert(s.take(0) =~= Seq::<(PackageId, PackageDataEntry)>::empty());
    while i < n
        invariant
            s == reg.entries(),
            keys_distinct(s),
            n == s.len(),
            i <= n,
            dependency_entries(m) == dependents_seq(s.take(i as int), target@),
        decreases n - i,
    {
        let ghost before = dependency_entries(m);
        let (key, e) = reg.entry_at(i);
        assert(s.take(i + 1).drop_last() =~= s.take(i as int));
        assert(s.take(i + 1).last() == s[i as int]);
        if !key.same(target) {
            let found = match e {
                PackageDataEntry::Installed { installed, .. } => get_dependency(
                    &installed.current_dependencies,
                    target,
                ),
                PackageDataEntry::Updating { installed, .. } => get_dependency(
                    &installed.current_dependencies,
                    target,
                ),
                PackageDataEntry::Installing { .. } => None,
            };
            if let Some(v) = found {
                proof {
                    lemma_dependents_keys(s.take(i as int), target@);
                    assert forall|x: int| 0 <= x < before.len() implies #[trigger] before[x].0 != key@ by {
                        assert(before[x] == dependents_seq(s.take(i as int), target@)[x]);
                        let j = choose|j: int|
                            0 <= j < s.take(i as int).len() && #[trigger] s.take(i as int)[j].0@ == before[x].0;
                        assert(s[j] == s.take(i as int)[j]);
                    }
                }
                insert_dependency(&mut m, key.clone(), v);
            }
        }
        i = i + 1;
    }
    assert(s.take(n as int) =~= s);
    m
}

} // verus!
