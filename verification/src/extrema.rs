//! Extreme values of a field, compared by a total order given as integer keys.
//!
//! The caller maps each value to a key whose integer order is the total order
//! it wants (for example IEEE total order of floating-point numbers); these
//! functions pick positions, following the tie rules of iterator `max_by`
//! (the last of several greatest) and `min_by` (the first of several least).

use vstd::prelude::*;

verus! {

/// `m` is the last position holding the greatest key.
pub open spec fn is_last_max(keys: Seq<i64>, m: int) -> bool {
    &&& 0 <= m < keys.len()
    &&& forall|j: int| 0 <= j < keys.len() ==> #[trigger] keys[j] <= keys[m]
    &&& forall|j: int| m < j < keys.len() ==> #[trigger] keys[j] < keys[m]
}

/// `m` is the first position holding the least key.
pub open spec fn is_first_min(keys: Seq<i64>, m: int) -> bool {
    &&& 0 <= m < keys.len()
    &&& forall|j: int| 0 <= j < keys.len() ==> keys[m] <= #[trigger] keys[j]
    &&& forall|j: int| 0 <= j < m ==> keys[m] < #[trigger] keys[j]
}

/// Position of the greatest key (the last one if several are equal); `None` when empty.
pub fn max(keys: &Vec<i64>) -> (res: Option<usize>)
    ensures
        res is None <==> keys@.len() == 0,
        res matches Some(m) ==> is_last_max(keys@, m as int),
        res matches Some(m) ==> {
            &&& m < keys@.len()
            &&& forall|j: int| 0 <= j < keys@.len() ==> #[trigger] keys@[j] <= keys@[m as int]
            &&& forall|j: int| m < j < keys@.len() ==> #[trigger] keys@[j] < keys@[m as int]
        },
{
    if keys.len() == 0 {
        return None;
    }
    let mut best: usize = 0;
    let mut j: usize = 1;
    while j < keys.len()
        invariant
            1 <= j <= keys@.len(),
            0 <= best < j,
            forall|i: int| 0 <= i < j ==> #[trigger] keys@[i] <= keys@[best as int],
            forall|i: int| best < i < j ==> #[trigger] keys@[i] < keys@[best as int],
        decreases keys@.len() - j,
    {
        if keys[j] >= keys[best] {
            best = j;
        }
        j = j + 1;
    }
    Some(best)
}

/// Position of the least key (the first one if several are equal); `None` when empty.
pub fn min(keys: &Vec<i64>) -> (res: Option<usize>)
    ensures
        res is None <==> keys@.len() == 0,
        res matches Some(m) ==> is_first_min(keys@, m as int),
        res matches Some(m) ==> {
            &&& m < keys@.len()
            &&& forall|j: int| 0 <= j < keys@.len() ==> keys@[m as int] <= #[trigger] keys@[j]
            &&& forall|j: int| 0 <= j < m ==> keys@[m as int] < #[trigger] keys@[j]
        },
{
    if keys.len() == 0 {
        return None;
    }
    let mut best: usize = 0;
    let mut j: usize = 1;
    while j < keys.len()
        invariant
            1 <= j <= keys@.len(),
            0 <= best < j,
            forall|i: int| 0 <= i < j ==> keys@[best as int] <= #[trigger] keys@[i],
            forall|i: int| 0 <= i < best ==> keys@[best as int] < #[trigger] keys@[i],
        decreases keys@.len() - j,
    {
        if keys[j] < keys[best] {
            best = j;
        }
        j = j + 1;
    }
    Some(best)
}

/// The extreme positions are unique, and the least key is not above the greatest.
pub proof fn lemma_extrema_unique_and_ordered(keys: Seq<i64>, a: int, a2: int, b: int, b2: int)
    requires
        is_last_max(keys, a),
        is_last_max(keys, a2),
        is_first_min(keys, b),
        is_first_min(keys, b2),
    ensures
        a == a2,
        b == b2,
        keys[b] <= keys[a],
{
    assert(keys[a] <= keys[a2] && keys[a2] <= keys[a]);
    assert(keys[b] <= keys[b2] && keys[b2] <= keys[b]);
    assert(keys[b] <= keys[a]);
}

} // verus!
