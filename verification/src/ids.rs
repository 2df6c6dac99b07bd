//! Sets of identifiers, kept in order.
use vstd::prelude::*;

use crate::time::Uuid;

verus! {

/// Whether the identifiers increase, so that none occurs twice.
pub open spec fn increasing(ids: Seq<Uuid>) -> bool {
    forall|i: int, j: int| 0 <= i < j < ids.len() ==> ids[i] < ids[j]
}

/// Puts an identifier in its place, unless it is there already.
pub fn insert_id(ids: &mut Vec<Uuid>, id: Uuid)
    requires
        increasing(old(ids)@),
    ensures
        increasing(final(ids)@),
        forall|x: Uuid| final(ids)@.contains(x) <==> old(ids)@.contains(x) || x == id,
{
    let mut i: usize = 0;
    while i < ids.len() && ids[i] < id
        invariant
            i <= ids.len(),
            ids@ == old(ids)@,
            forall|k: int| 0 <= k < i ==> ids@[k] < id,
        decreases ids.len() - i,
    {
        i = i + 1;
    }
    if i < ids.len() && ids[i] == id {
        assert(ids@[i as int] == id);
        return;
    }
    let ghost before = ids@;
    ids.insert(i, id);
    proof {
        let after = ids@;
        assert(forall|k: int| 0 <= k < i ==> after[k] == before[k]);
        assert(after[i as int] == id);
        assert(forall|k: int| i < k < after.len() ==> after[k] == before[k - 1]);
        assert forall|x: Uuid| before.contains(x) || x == id implies after.contains(x) by {
            if x != id {
                let k = choose|k: int| 0 <= k < before.len() && before[k] == x;
                if k < i {
                    assert(after[k] == x);
                } else {
                    assert(after[k + 1] == x);
                }
            } else {
                assert(after[i as int] == x);
            }
        }
        assert forall|x: Uuid| after.contains(x) implies before.contains(x) || x == id by {
            let k = choose|k: int| 0 <= k < after.len() && after[k] == x;
            if k < i {
                assert(before[k] == x);
            } else if k > i {
                assert(before[k - 1] == x);
            }
        }
    }
}

/// Whether `id` is one of `ids`.
pub fn holds_id(ids: &Vec<Uuid>, id: Uuid) -> (result: bool)
    ensures
        result == ids@.contains(id),
{
    let mut i: usize = 0;
    while i < ids.len()
        invariant
            i <= ids.len(),
            forall|k: int| 0 <= k < i ==> ids@[k] != id,
        decreases ids.len() - i,
    {
        if ids[i] == id {
            assert(ids@[i as int] == id);
            return true;
        }
        i = i + 1;
    }
    false
}

/// The identifiers in increasing order, each once.
pub fn sorted_ids(ids: &Vec<Uuid>) -> (result: Vec<Uuid>)
    ensures
        increasing(result@),
        forall|x: Uuid| result@.contains(x) <==> ids@.contains(x),
{
    let mut sorted: Vec<Uuid> = Vec::new();
    let mut i: usize = 0;
    while i < ids.len()
        invariant
            i <= ids.len(),
            increasing(sorted@),
            forall|x: Uuid| sorted@.contains(x) <==> ids@.take(i as int).contains(x),
        decreases ids.len() - i,
    {
        insert_id(&mut sorted, ids[i]);
        proof {
            lemma_take_contains(ids@, i as int);
        }
        i = i + 1;
    }
    assert(ids@.take(i as int) =~= ids@);
    sorted
}

/// Taking one more element adds that element.
pub proof fn lemma_take_contains(ids: Seq<Uuid>, i: int)
    requires
        0 <= i < ids.len(),
    ensures
        forall|x: Uuid| ids.take(i + 1).contains(x) <==> ids.take(i).contains(x) || x == ids[i],
{
    let longer = ids.take(i + 1);
    let shorter = ids.take(i);
    assert forall|x: Uuid| longer.contains(x) <==> shorter.contains(x) || x == ids[i] by {
        if longer.contains(x) {
            let k = choose|k: int| 0 <= k < longer.len() && longer[k] == x;
            if k < i {
                assert(shorter[k] == x);
            }
        }
        if shorter.contains(x) {
            let k = choose|k: int| 0 <= k < shorter.len() && shorter[k] == x;
            assert(longer[k] == x);
        }
        if x == ids[i] {
            assert(longer[i] == x);
        }
    }
}

} // verus!
