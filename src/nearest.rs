use vstd::prelude::*;

verus! {

/// The smallest key among the present candidates, or `None` when none is
/// present.
pub open spec fn min_present(keys: Seq<Option<u64>>) -> Option<u64>
    decreases keys.len(),
{
    if keys.len() == 0 {
        None
    } else {
        let rest = min_present(keys.drop_last());
        match keys.last() {
            None => rest,
            Some(k) => match rest {
                None => Some(k),
                Some(m) => Some(if k < m { k } else { m }),
            },
        }
    }
}

/// Candidate `k` is present, no present candidate has a smaller key, and no
/// earlier candidate has the same key: a later candidate displaces the one
/// held so far only when it is strictly nearer.
pub open spec fn is_nearest(keys: Seq<Option<u64>>, k: int) -> bool {
    &&& 0 <= k < keys.len()
    &&& keys[k] is Some
    &&& forall|j: int| 0 <= j < keys.len() && keys[j] is Some ==> keys[k]->0 <= keys[j]->0
    &&& forall|j: int| 0 <= j < k && keys[j] is Some ==> keys[k]->0 < keys[j]->0
}

/// The index of the nearest hit among the answers of the members of a scene,
/// in scene order: `keys[i]` is `None` where member `i` was not hit, and
/// otherwise a key that orders hits by their ray parameter. Every member is
/// looked at; the result is `None` exactly when no member was hit.
pub fn nearest_hit(keys: &Vec<Option<u64>>) -> (r: Option<usize>)
    ensures
        r is None <==> forall|j: int| 0 <= j < keys@.len() ==> keys@[j] is None,
        r matches Some(k) ==> is_nearest(keys@, k as int),
{
    let mut best: Option<usize> = None;
    let mut i: usize = 0;
    while i < keys.len()
        invariant
            0 <= i <= keys@.len(),
            best is None <==> forall|j: int| 0 <= j < i ==> keys@[j] is None,
            best matches Some(k) ==> is_nearest(keys@.take(i as int), k as int),
        decreases keys@.len() - i,
    {
        if let Some(key) = keys[i] {
            let closer = match best {
                None => true,
                Some(k) => key < keys[k].unwrap(),
            };
            if closer {
                best = Some(i);
            }
        }
        proof {
            assert(keys@.take(i + 1).drop_last() =~= keys@.take(i as int));
        }
        i = i + 1;
    }
    assert(keys@.take(i as int) =~= keys@);
    best
}

/// The nearest hit is the hit with the smallest key: its key is the minimum
/// of the keys of all members that were hit.
pub proof fn lemma_nearest_is_minimum(keys: Seq<Option<u64>>, k: int)
    requires
        is_nearest(keys, k),
    ensures
        min_present(keys) == keys[k],
{
    lemma_min_present_is_least(keys);
    let m = min_present(keys)->0;
    let w = choose|w: int| 0 <= w < keys.len() && keys[w] == Some(m);
    assert(keys[k]->0 <= keys[w]->0);
}

/// At most one candidate is the nearest.
pub proof fn lemma_nearest_is_unique(keys: Seq<Option<u64>>, k1: int, k2: int)
    requires
        is_nearest(keys, k1),
        is_nearest(keys, k2),
    ensures
        k1 == k2,
{
    if k1 < k2 {
        assert(keys[k2]->0 < keys[k1]->0);
    } else if k2 < k1 {
        assert(keys[k1]->0 < keys[k2]->0);
    }
}

/// `min_present` is `None` exactly when no candidate is present, and
/// otherwise a present key no larger than any other.
pub proof fn lemma_min_present_is_least(keys: Seq<Option<u64>>)
    ensures
        min_present(keys) is None <==> forall|j: int| 0 <= j < keys.len() ==> keys[j] is None,
        min_present(keys) matches Some(m) ==> (exists|w: int| 0 <= w < keys.len() && keys[w] == Some(m)),
        min_present(keys) matches Some(m) ==> (forall|j: int|
            0 <= j < keys.len() && keys[j] is Some ==> m <= keys[j]->0),
    decreases keys.len(),
{
    if keys.len() > 0 {
        let init = keys.drop_last();
        lemma_min_present_is_least(init);
        assert forall|j: int| 0 <= j < init.len() implies init[j] == keys[j] by {}
        let n = keys.len() - 1;
        if let Some(m) = min_present(keys) {
            if min_present(keys) == keys.last() {
                assert(keys[n] == Some(m));
            } else {
                let w = choose|w: int| 0 <= w < init.len() && init[w] == Some(m);
                assert(keys[w] == Some(m));
            }
        }
    }
}

} // verus!
