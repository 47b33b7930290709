//! Sets of entry names kept in a vector without repeats.

use vstd::prelude::*;
use crate::text::str_eq;

verus! {

/// The names held, as a set of texts.
pub open spec fn name_set(v: Seq<String>) -> Set<Seq<char>> {
    Set::new(|n: Seq<char>| exists|i: int| 0 <= i < v.len() && #[trigger] v[i]@ == n)
}

/// No name occurs twice.
pub open spec fn distinct_names(v: Seq<String>) -> bool {
    forall|i: int, j: int| 0 <= i < j < v.len() ==> (#[trigger] v[i])@ != (#[trigger] v[j])@
}

/// Position of `name` among the names held.
pub fn find_name(v: &Vec<String>, name: &str) -> (r: Option<usize>)
    ensures
        match r {
            Some(i) => i < v@.len() && v@[i as int]@ == name@ && forall|j: int|
                0 <= j < i ==> v@[j]@ != name@,
            None => !name_set(v@).contains(name@),
        },
{
    let mut i: usize = 0;
    while i < v.len()
        invariant
            i <= v@.len(),
            forall|j: int| 0 <= j < i ==> v@[j]@ != name@,
        decreases v@.len() - i,
    {
        if str_eq(v[i].as_str(), name) {
            return Some(i);
        }
        i = i + 1;
    }
    None
}

/// Whether `name` is held.
pub fn contains_name(v: &Vec<String>, name: &str) -> (r: bool)
    ensures
        r == name_set(v@).contains(name@),
{
    find_name(v, name).is_some()
}

/// Adds `name` unless it is held already.
pub fn insert_name(v: &mut Vec<String>, name: String)
    requires
        distinct_names(old(v)@),
    ensures
        distinct_names(final(v)@),
        name_set(final(v)@) == name_set(old(v)@).insert(name@),
{
    if find_name(v, name.as_str()).is_none() {
        let ghost o = v@;
        v.push(name);
        assert(name_set(v@) =~= name_set(o).insert(name@)) by {
            assert forall|n: Seq<char>| name_set(o).insert(name@).contains(n) implies name_set(
                v@,
            ).contains(n) by {
                if n == name@ {
                    assert(v@[o.len() as int]@ == n);
                } else {
                    let i = choose|i: int| 0 <= i < o.len() && o[i]@ == n;
                    assert(v@[i]@ == n);
                }
            }
            assert forall|n: Seq<char>| name_set(v@).contains(n) implies name_set(o).insert(
                name@,
            ).contains(n) by {
                let i = choose|i: int| 0 <= i < v@.len() && v@[i]@ == n;
                if i < o.len() {
                    assert(o[i]@ == n);
                }
            }
        }
        assert forall|i: int, j: int| 0 <= i < j < v@.len() implies (#[trigger] v@[i])@ != (
        #[trigger] v@[j])@ by {
            if j == o.len() {
                assert(!name_set(o).contains(name@));
                assert(v@[i] == o[i]);
            }
        }
    } else {
        assert(name_set(v@) =~= name_set(v@).insert(name@));
    }
}

/// Removes `name` if it is held.
pub fn remove_name(v: &mut Vec<String>, name: &str)
    requires
        distinct_names(old(v)@),
    ensures
        distinct_names(final(v)@),
        name_set(final(v)@) == name_set(old(v)@).remove(name@),
{
    match find_name(v, name) {
        Some(i) => {
            let ghost o = v@;
            v.remove(i);
            assert(v@ =~= o.remove(i as int));
            assert(name_set(v@) =~= name_set(o).remove(name@)) by {
                assert forall|n: Seq<char>| name_set(o).remove(name@).contains(n) implies name_set(
                    v@,
                ).contains(n) by {
                    let k = choose|k: int| 0 <= k < o.len() && o[k]@ == n;
                    if k < i {
                        assert(v@[k]@ == n);
                    } else {
                        assert(k != i);
                        assert(v@[k - 1]@ == n);
                    }
                }
                assert forall|n: Seq<char>| name_set(v@).contains(n) implies name_set(o).remove(
                    name@,
                ).contains(n) by {
                    let k = choose|k: int| 0 <= k < v@.len() && v@[k]@ == n;
                    if k < i {
                        assert(o[k]@ == n);
                        assert(o[k]@ != o[i as int]@);
                    } else {
                        assert(o[k + 1]@ == n);
                        assert(o[i as int]@ != o[k + 1]@);
                    }
                }
            }
            assert forall|a: int, b: int| 0 <= a < b < v@.len() implies (#[trigger] v@[a])@ != (
            #[trigger] v@[b])@ by {
                let a2 = if a < i {
                    a
                } else {
                    a + 1
                };
                let b2 = if b < i {
                    b
                } else {
                    b + 1
                };
                assert(v@[a] == o[a2] && v@[b] == o[b2]);
            }
        },
        None => {
            assert(name_set(v@) =~= name_set(v@).remove(name@));
        },
    }
}

/// Removes every name.
pub fn clear_names(v: &mut Vec<String>)
    ensures
        final(v)@.len() == 0,
        distinct_names(final(v)@),
        name_set(final(v)@) == Set::<Seq<char>>::empty(),
{
    v.clear();
    assert(name_set(v@) =~= Set::<Seq<char>>::empty());
}

} // verus!
