//! Prescribed nodal temperatures (Dirichlet conditions).
//!
//! A load on node `m` replaces row `m - 1` of the global system by the identity
//! row and puts the prescribed value into the right-hand side. Loads are applied
//! in listing order, so when a node is loaded more than once the last load wins.

use vstd::prelude::*;
use crate::mesh::MeshError;

verus! {

/// A prescribed value at the node with 1-based identifier `node`
/// (the value itself is carried by the caller, indexed like the load list).
#[derive(Clone, Copy, Debug, PartialEq, Eq, Structural)]
pub struct Load {
    pub node: usize,
}

/// Every load names one of the nodes `1..=n`.
pub open spec fn loads_valid(loads: Seq<Load>, n: nat) -> bool {
    forall|k: int| 0 <= k < loads.len() ==> 1 <= #[trigger] loads[k].node <= n
}

/// Position of the last load on row `r` (node `r + 1`), if any.
pub open spec fn last_load_on(loads: Seq<Load>, r: int) -> Option<usize>
    decreases loads.len(),
{
    if loads.len() == 0 {
        None
    } else if loads.last().node == r + 1 {
        Some((loads.len() - 1) as usize)
    } else {
        last_load_on(loads.drop_last(), r)
    }
}

/// Checks that every load names one of the nodes `1..=n_nodes`; reports the first that does not.
pub fn check_loads(loads: &Vec<Load>, n_nodes: usize) -> (res: Result<(), MeshError>)
    ensures
        res is Ok <==> loads_valid(loads@, n_nodes as nat),
        res is Ok <==> forall|k: int| 0 <= k < loads@.len() ==> 1 <= #[trigger] loads@[k].node <= n_nodes,
        res is Err ==> res matches Err(MeshError::LoadOutOfRange { .. }),
        res matches Err(MeshError::LoadOutOfRange { load, node }) ==> {
            &&& load < loads@.len()
            &&& node == loads@[load as int].node
            &&& !(1 <= node <= n_nodes)
            &&& forall|f: int| 0 <= f < load ==> 1 <= #[trigger] loads@[f].node <= n_nodes
        },
{
    let mut k: usize = 0;
    while k < loads.len()
        invariant
            0 <= k <= loads@.len(),
            forall|f: int| 0 <= f < k ==> 1 <= #[trigger] loads@[f].node <= n_nodes,
        decreases loads@.len() - k,
    {
        let node = loads[k].node;
        if !(1 <= node && node <= n_nodes) {
            return Err(MeshError::LoadOutOfRange { load: k, node });
        }
        k = k + 1;
    }
    Ok(())
}

/// For each of the `n_nodes` rows of the global system, the position of the load
/// that finally determines it: `Some(k)` when the last load on node `r + 1` is
/// `loads[k]` (row `r` becomes an identity row with right-hand side from that
/// load), `None` when the row keeps its assembled values.
pub fn pinned_rows(loads: &Vec<Load>, n_nodes: usize) -> (rows: Vec<Option<usize>>)
    requires
        loads_valid(loads@, n_nodes as nat),
    ensures
        rows@.len() == n_nodes,
        forall|r: int| 0 <= r < n_nodes ==> #[trigger] rows@[r] == last_load_on(loads@, r),
        forall|r: int|
            0 <= r < n_nodes ==> ((#[trigger] rows@[r]) is None <==> forall|k: int|
                0 <= k < loads@.len() ==> loads@[k].node != r + 1),
        forall|r: int|
            0 <= r < n_nodes ==> ((#[trigger] rows@[r]) matches Some(k) ==> {
                &&& k < loads@.len()
                &&& loads@[k as int].node == r + 1
                &&& forall|f: int| k < f < loads@.len() ==> loads@[f].node != r + 1
            }),
{
    let mut rows: Vec<Option<usize>> = Vec::new();
    let mut r: usize = 0;
    while r < n_nodes
        invariant
            0 <= r <= n_nodes,
            rows@.len() == r,
            forall|s: int| 0 <= s < r ==> #[trigger] rows@[s] == None::<usize>,
        decreases n_nodes - r,
    {
        rows.push(None);
        r = r + 1;
    }
    assert(loads@.take(0) =~= Seq::<Load>::empty());
    let mut k: usize = 0;
    while k < loads.len()
        invariant
            0 <= k <= loads@.len(),
            loads_valid(loads@, n_nodes as nat),
            rows@.len() == n_nodes,
            forall|s: int| 0 <= s < n_nodes ==> #[trigger] rows@[s] == last_load_on(loads@.take(k as int), s),
        decreases loads@.len() - k,
    {
        let node = loads[k].node;
        assert(1 <= loads@[k as int].node <= n_nodes);
        rows.set(node - 1, Some(k));
        assert(loads@.take(k + 1).drop_last() =~= loads@.take(k as int));
        assert forall|s: int| 0 <= s < n_nodes implies #[trigger] rows@[s] == last_load_on(loads@.take(k + 1), s) by {
            assert(loads@.take(k + 1).last() == loads@[k as int]);
        }
        k = k + 1;
    }
    assert(loads@.take(loads@.len() as int) =~= loads@);
    assert forall|r: int| 0 <= r < n_nodes implies {
        &&& ((#[trigger] rows@[r]) is None <==> forall|k: int|
            0 <= k < loads@.len() ==> loads@[k].node != r + 1)
        &&& (rows@[r] matches Some(k) ==> {
            &&& k < loads@.len()
            &&& loads@[k as int].node == r + 1
            &&& forall|f: int| k < f < loads@.len() ==> loads@[f].node != r + 1
        })
    } by {
        lemma_last_load_characterized(loads@, r);
    }
    rows
}

/// A row is pinned exactly when some load names its node, and then by the last
/// such load: no later load names the same node.
pub proof fn lemma_last_load_characterized(loads: Seq<Load>, r: int)
    requires
        loads.len() <= usize::MAX,
    ensures
        last_load_on(loads, r) is None <==> forall|k: int|
            0 <= k < loads.len() ==> #[trigger] loads[k].node != r + 1,
        last_load_on(loads, r) matches Some(k) ==> {
            &&& k < loads.len()
            &&& loads[k as int].node == r + 1
            &&& forall|f: int| k < f < loads.len() ==> #[trigger] loads[f].node != r + 1
        },
    decreases loads.len(),
{
    if loads.len() > 0 {
        let rest = loads.drop_last();
        lemma_last_load_characterized(rest, r);
        if loads.last().node != r + 1 {
            assert forall|k: int| 0 <= k < rest.len() implies #[trigger] loads[k] == rest[k] by {}
            if last_load_on(rest, r) is None {
                assert forall|k: int| 0 <= k < loads.len() implies #[trigger] loads[k].node != r + 1 by {
                    if k < rest.len() {
                        assert(loads[k] == rest[k]);
                    }
                }
            } else {
                let k = last_load_on(rest, r)->0;
                assert(loads[k as int] == rest[k as int]);
                assert forall|f: int| k < f < loads.len() implies #[trigger] loads[f].node != r + 1 by {
                    if f < rest.len() {
                        assert(loads[f] == rest[f]);
                    }
                }
            }
        }
    }
}

/// Applying one more load pins the row of its node to that load and leaves the
/// plan of every other row unchanged.
pub proof fn lemma_later_load_wins(loads: Seq<Load>, load: Load, r: int)
    requires
        loads.len() < usize::MAX,
    ensures
        last_load_on(loads.push(load), load.node - 1) == Some(loads.len() as usize),
        r != load.node - 1 ==> last_load_on(loads.push(load), r) == last_load_on(loads, r),
{
    assert(loads.push(load).drop_last() =~= loads);
}

} // verus!
