use vstd::prelude::*;

use crate::util::resource_location::ResourceLocation;

verus! {

/// The identifiers held by a list, by value.
pub open spec fn id_set(v: Seq<ResourceLocation>) -> Set<(Seq<char>, Seq<char>)> {
    Set::new(|x: (Seq<char>, Seq<char>)| exists|i: int| 0 <= i < v.len() && (#[trigger] v[i])@ == x)
}

/// No identifier occurs twice in the list.
pub open spec fn distinct_ids(v: Seq<ResourceLocation>) -> bool {
    forall|i: int, j: int|
        0 <= i < v.len() && 0 <= j < v.len() && i != j ==> (#[trigger] v[i])@ != (#[trigger] v[j])@
}

/// Returns whether the list holds `id`.
pub fn contains_id(v: &Vec<ResourceLocation>, id: &ResourceLocation) -> (r: bool)
    ensures
        r == id_set(v@).contains(id@),
{
    let mut i: usize = 0;
    while i < v.len()
        invariant
            0 <= i <= v@.len(),
            forall|k: int| 0 <= k < i ==> (#[trigger] v@[k])@ != id@,
        decreases v@.len() - i,
    {
        if v[i].same(id) {
            return true;
        }
        i += 1;
    }
    false
}

/// Adds `id` to the list unless it is there already.
pub fn insert_id(v: &mut Vec<ResourceLocation>, id: &ResourceLocation)
    requires
        distinct_ids(old(v)@),
    ensures
        distinct_ids(final(v)@),
        id_set(final(v)@) == id_set(old(v)@).insert(id@),
{
    if !contains_id(v, id) {
        let ghost before = v@;
        v.push(id.clone());
        assert forall|i: int, j: int|
            0 <= i < v@.len() && 0 <= j < v@.len() && i != j implies (#[trigger] v@[i])@ != (
            #[trigger] v@[j])@ by {
            if i < before.len() && j < before.len() {
                assert(v@[i] == before[i] && v@[j] == before[j]);
            } else if i < before.len() {
                assert(v@[i] == before[i]);
            } else {
                assert(v@[j] == before[j]);
            }
        }
        assert forall|x: (Seq<char>, Seq<char>)|
            #[trigger] id_set(v@).contains(x) <==> id_set(before).insert(id@).contains(x) by {
            if id_set(v@).contains(x) {
                let k = choose|k: int| 0 <= k < v@.len() && (#[trigger] v@[k])@ == x;
                if k < before.len() {
                    assert(before[k]@ == x);
                }
            }
            if id_set(before).contains(x) {
                let k = choose|k: int| 0 <= k < before.len() && (#[trigger] before[k])@ == x;
                assert(v@[k]@ == x);
            }
            if x == id@ {
                assert(v@[before.len() as int]@ == x);
            }
        }
        assert(id_set(v@) =~= id_set(before).insert(id@));
    } else {
        assert(id_set(v@) =~= id_set(v@).insert(id@));
    }
}

/// Removes `id` from the list when it is there.
pub fn remove_id(v: &mut Vec<ResourceLocation>, id: &ResourceLocation)
    requires
        distinct_ids(old(v)@),
    ensures
        distinct_ids(final(v)@),
        id_set(final(v)@) == id_set(old(v)@).remove(id@),
{
    let mut i: usize = 0;
    while i < v.len()
        invariant
            0 <= i <= v@.len(),
            v@ == old(v)@,
            distinct_ids(v@),
            forall|k: int| 0 <= k < i ==> (#[trigger] v@[k])@ != id@,
        decreases v@.len() - i,
    {
        if v[i].same(id) {
            let ghost before = v@;
            v.remove(i);
            assert forall|a: int, b: int|
                0 <= a < v@.len() && 0 <= b < v@.len() && a != b implies (#[trigger] v@[a])@ != (
                #[trigger] v@[b])@ by {
                let a2 = if a < i { a } else { a + 1 };
                let b2 = if b < i { b } else { b + 1 };
                assert(v@[a] == before[a2]);
                assert(v@[b] == before[b2]);
            }
            assert forall|x: (Seq<char>, Seq<char>)|
                #[trigger] id_set(v@).contains(x) <==> id_set(before).remove(id@).contains(x) by {
                if id_set(v@).contains(x) {
                    let k = choose|k: int| 0 <= k < v@.len() && (#[trigger] v@[k])@ == x;
                    let k2 = if k < i { k } else { k + 1 };
                    assert(before[k2]@ == x);
                    assert(k2 != i);
                    assert(before[k2]@ != before[i as int]@);
                }
                if id_set(before).contains(x) && x != id@ {
                    let k = choose|k: int| 0 <= k < before.len() && (#[trigger] before[k])@ == x;
                    if k < i {
                        assert(v@[k]@ == x);
                    } else {
                        assert(k != i);
                        assert(v@[k - 1]@ == x);
                    }
                }
            }
            assert(id_set(v@) =~= id_set(before).remove(id@));
            return;
        }
        i += 1;
    }
    assert(id_set(v@) =~= id_set(v@).remove(id@)) by {
        assert forall|x: (Seq<char>, Seq<char>)| #[trigger] id_set(v@).contains(x) implies x != id@ by {
            let k = choose|k: int| 0 <= k < v@.len() && (#[trigger] v@[k])@ == x;
        }
    }
}

} // verus!
