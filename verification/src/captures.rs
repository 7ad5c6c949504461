//! Reading the capture groups of construct matches.

use vstd::prelude::*;
use crate::engine::Groups;

verus! {

/// Whether the match has the groups `0..=last` and each of them took part in it.
pub open spec fn carries(m: Groups, last: int) -> bool {
    &&& last < m.len()
    &&& forall|i: int| 0 <= i <= last ==> (#[trigger] m[i]) is Some
}

/// Whether every match carries the groups `0..=last`.
pub open spec fn all_carry(found: Seq<Groups>, last: int) -> bool {
    forall|k: int| 0 <= k < found.len() ==> carries(#[trigger] found[k], last)
}

/// The text of group `i` of the match, which took part in it.
pub fn group(m: &Vec<Option<String>>, i: usize) -> (text: &String)
    requires
        i < m.len(),
        m.deep_view()[i as int] is Some,
    ensures
        m.deep_view()[i as int] == Some(text@),
{
    proof {
        assert(m.deep_view()[i as int] == m@[i as int].deep_view());
    }
    m[i].as_ref().unwrap()
}

/// Tells whether the match carries the groups `0..=last`.
pub fn has_groups(m: &Vec<Option<String>>, last: usize) -> (yes: bool)
    ensures
        yes == carries(m.deep_view(), last as int),
{
    if last >= m.len() {
        return false;
    }
    let mut i: usize = 0;
    while i <= last
        invariant
            last < m.len(),
            i <= last + 1,
            forall|j: int| 0 <= j < i ==> (#[trigger] m.deep_view()[j]) is Some,
        decreases last + 1 - i,
    {
        if m[i].is_none() {
            proof {
                assert(m.deep_view()[i as int] is None);
            }
            return false;
        }
        proof {
            assert(m.deep_view()[i as int] is Some);
        }
        i += 1;
    }
    true
}

/// Tells whether every match carries the groups `0..=last`.
pub fn all_have_groups(found: &Vec<Vec<Option<String>>>, last: usize) -> (yes: bool)
    ensures
        yes == all_carry(found.deep_view(), last as int),
{
    let mut k: usize = 0;
    while k < found.len()
        invariant
            k <= found.len(),
            forall|j: int| 0 <= j < k ==> carries(#[trigger] found.deep_view()[j], last as int),
        decreases found.len() - k,
    {
        if !has_groups(&found[k], last) {
            proof {
                assert(found.deep_view()[k as int] == found[k as int].deep_view());
            }
            return false;
        }
        proof {
            assert(found.deep_view()[k as int] == found[k as int].deep_view());
        }
        k += 1;
    }
    true
}

} // verus!
