use vstd::prelude::*;

verus! {

/// `i` names a candidate that hit, whose key is no larger than any other hit's
/// key, and strictly smaller than the key of every hit listed before it.
pub open spec fn is_closest(candidates: Seq<Option<u64>>, i: int) -> bool {
    &&& 0 <= i < candidates.len()
    &&& candidates[i] is Some
    &&& forall|j: int|
        0 <= j < candidates.len() && #[trigger] candidates[j] is Some ==> candidates[i]->0
            <= candidates[j]->0
    &&& forall|j: int|
        0 <= j < i && #[trigger] candidates[j] is Some ==> candidates[i]->0 < candidates[j]->0
}

/// No candidate hit.
pub open spec fn all_missed(candidates: Seq<Option<u64>>) -> bool {
    forall|j: int| 0 <= j < candidates.len() ==> #[trigger] candidates[j] is None
}

/// Nearest-hit resolution over a scene's objects, in list order. Entry `j` is
/// `None` when object `j` was missed, or the key of its hit distance, where
/// keys order as the distances do. The result is the position of the nearest
/// hit, the first one listed among equal distances, or `None` when the ray
/// escapes every object.
pub fn closest_hit(candidates: &Vec<Option<u64>>) -> (r: Option<usize>)
    ensures
        r is None <==> all_missed(candidates@),
        r matches Some(i) ==> is_closest(candidates@, i as int),
{
    let mut best: Option<usize> = None;
    let mut best_key: u64 = 0;
    let n = candidates.len();
    for k in 0..n
        invariant
            n == candidates@.len(),
            best is None <==> forall|j: int| 0 <= j < k ==> #[trigger] candidates@[j] is None,
            best matches Some(i) ==> {
                &&& i < k
                &&& candidates@[i as int] == Some(best_key)
                &&& forall|j: int|
                    0 <= j < k && #[trigger] candidates@[j] is Some ==> best_key
                        <= candidates@[j]->0
                &&& forall|j: int|
                    0 <= j < i && #[trigger] candidates@[j] is Some ==> best_key
                        < candidates@[j]->0
            },
    {
        match candidates[k] {
            Some(key) => {
                let better = match best {
                    None => true,
                    Some(_) => key < best_key,
                };
                if better {
                    best = Some(k);
                    best_key = key;
                }
            },
            None => {},
        }
    }
    best
}

} // verus!
