//! Triangular mesh connectivity as read from element and node listings.
//!
//! Node identifiers in the listings are 1-based; storage positions are 0-based.

use vstd::prelude::*;

verus! {

/// A three-node triangular element: the 1-based identifiers of its corner nodes.
#[derive(Clone, Copy, Debug, PartialEq, Eq, Structural)]
pub struct Element {
    pub node_i: usize,
    pub node_j: usize,
    pub node_k: usize,
}

/// Why a mesh was rejected.
#[derive(Clone, Copy, Debug, PartialEq, Eq, Structural)]
pub enum MeshError {
    /// Element `element` (0-based position) names node `node`, which is not in `1..=n`.
    NodeOutOfRange { element: usize, node: usize },
    /// Element `element` reaches a node record whose number `node` does not
    /// address an entry of the value vector.
    ValueOutOfRange { element: usize, node: usize },
    /// Load `load` (0-based position) is prescribed at node `node`, which is not in `1..=n`.
    LoadOutOfRange { load: usize, node: usize },
}

impl Element {
    /// Identifier of corner `t` (0, 1 or 2).
    pub open spec fn corner(self, t: int) -> usize {
        if t == 0 {
            self.node_i
        } else if t == 1 {
            self.node_j
        } else {
            self.node_k
        }
    }

    /// All three corners name one of the nodes `1..=n`.
    pub open spec fn valid(self, n: nat) -> bool {
        &&& 1 <= self.node_i <= n
        &&& 1 <= self.node_j <= n
        &&& 1 <= self.node_k <= n
    }

    /// The first corner identifier outside `1..=n` (meaningful when `!self.valid(n)`).
    pub open spec fn first_bad_corner(self, n: nat) -> usize {
        if !(1 <= self.node_i <= n) {
            self.node_i
        } else if !(1 <= self.node_j <= n) {
            self.node_j
        } else {
            self.node_k
        }
    }

    /// 0-based storage positions of the three corners.
    pub fn dofs(&self, n_nodes: usize) -> (dofs: [usize; 3])
        requires
            self.valid(n_nodes as nat),
        ensures
            forall|t: int| 0 <= t < 3 ==> dofs[t] == self.corner(t) - 1 && dofs[t] < n_nodes,
            dofs[0] == self.node_i - 1,
            dofs[1] == self.node_j - 1,
            dofs[2] == self.node_k - 1,
    {
        [self.node_i - 1, self.node_j - 1, self.node_k - 1]
    }
}

/// Every element of the mesh names only nodes `1..=n`.
pub open spec fn mesh_valid(triangles: Seq<Element>, n: nat) -> bool {
    forall|e: int| 0 <= e < triangles.len() ==> #[trigger] triangles[e].valid(n)
}

/// Checks that every element names only nodes `1..=n_nodes`; reports the first that does not.
pub fn check_mesh(triangles: &Vec<Element>, n_nodes: usize) -> (res: Result<(), MeshError>)
    ensures
        res is Ok <==> mesh_valid(triangles@, n_nodes as nat),
        res is Ok <==> forall|e: int|
            0 <= e < triangles@.len() ==> {
                &&& 1 <= (#[trigger] triangles@[e]).node_i <= n_nodes
                &&& 1 <= triangles@[e].node_j <= n_nodes
                &&& 1 <= triangles@[e].node_k <= n_nodes
            },
        res matches Err(MeshError::NodeOutOfRange { element, node }) ==> {
            &&& element < triangles@.len()
            &&& !(1 <= node <= n_nodes)
            &&& (node == triangles@[element as int].node_i || (1 <= triangles@[element as int].node_i
                <= n_nodes && (node == triangles@[element as int].node_j || (1
                <= triangles@[element as int].node_j <= n_nodes && node
                == triangles@[element as int].node_k))))
            &&& forall|f: int|
                0 <= f < element ==> {
                    &&& 1 <= (#[trigger] triangles@[f]).node_i <= n_nodes
                    &&& 1 <= triangles@[f].node_j <= n_nodes
                    &&& 1 <= triangles@[f].node_k <= n_nodes
                }
        },
        res is Err ==> res matches Err(MeshError::NodeOutOfRange { .. }),
        res matches Err(MeshError::NodeOutOfRange { element, node }) ==> {
            &&& element < triangles@.len()
            &&& !triangles@[element as int].valid(n_nodes as nat)
            &&& forall|f: int| 0 <= f < element ==> #[trigger] triangles@[f].valid(n_nodes as nat)
            &&& node == triangles@[element as int].first_bad_corner(n_nodes as nat)
        },
{
    let mut e: usize = 0;
    while e < triangles.len()
        invariant
            0 <= e <= triangles@.len(),
            forall|f: int| 0 <= f < e ==> #[trigger] triangles@[f].valid(n_nodes as nat),
            forall|f: int|
                0 <= f < e ==> {
                    &&& 1 <= (#[trigger] triangles@[f]).node_i <= n_nodes
                    &&& 1 <= triangles@[f].node_j <= n_nodes
                    &&& 1 <= triangles@[f].node_k <= n_nodes
                },
        decreases triangles@.len() - e,
    {
        let t = &triangles[e];
        proof {
            lemma_mesh_valid_in_range(triangles@, n_nodes as nat);
        }
        if !(1 <= t.node_i && t.node_i <= n_nodes) {
            assert(!triangles@[e as int].valid(n_nodes as nat));
            return Err(MeshError::NodeOutOfRange { element: e, node: t.node_i });
        }
        if !(1 <= t.node_j && t.node_j <= n_nodes) {
            assert(!triangles@[e as int].valid(n_nodes as nat));
            return Err(MeshError::NodeOutOfRange { element: e, node: t.node_j });
        }
        if !(1 <= t.node_k && t.node_k <= n_nodes) {
            assert(!triangles@[e as int].valid(n_nodes as nat));
            return Err(MeshError::NodeOutOfRange { element: e, node: t.node_k });
        }
        e = e + 1;
    }
    proof {
        lemma_mesh_valid_in_range(triangles@, n_nodes as nat);
    }
    Ok(())
}

/// 0-based storage positions of the corners of every element, in listing order.
pub fn mesh_dofs(triangles: &Vec<Element>, n_nodes: usize) -> (dofs: Vec<[usize; 3]>)
    requires
        mesh_valid(triangles@, n_nodes as nat),
    ensures
        dofs@.len() == triangles@.len(),
        forall|e: int, t: int|
            0 <= e < triangles@.len() && 0 <= t < 3 ==> #[trigger] dofs@[e][t]
                == triangles@[e].corner(t) - 1 && dofs@[e][t] < n_nodes,
        forall|e: int|
            0 <= e < triangles@.len() ==> {
                &&& (#[trigger] dofs@[e])[0] == triangles@[e].node_i - 1
                &&& dofs@[e][1] == triangles@[e].node_j - 1
                &&& dofs@[e][2] == triangles@[e].node_k - 1
            },
{
    let mut dofs: Vec<[usize; 3]> = Vec::new();
    let mut e: usize = 0;
    while e < triangles.len()
        invariant
            0 <= e <= triangles@.len(),
            mesh_valid(triangles@, n_nodes as nat),
            dofs@.len() == e,
            forall|f: int, t: int|
                0 <= f < e && 0 <= t < 3 ==> #[trigger] dofs@[f][t] == triangles@[f].corner(t) - 1
                    && dofs@[f][t] < n_nodes,
        decreases triangles@.len() - e,
    {
        assert(triangles@[e as int].valid(n_nodes as nat));
        let d = triangles[e].dofs(n_nodes);
        dofs.push(d);
        e = e + 1;
    }
    dofs
}

/// The number recorded for the node at corner `t` of element `e`, where
/// `node_numbers[p]` is the number of the node record stored at position `p`.
pub open spec fn corner_number(
    triangles: Seq<Element>,
    node_numbers: Seq<usize>,
    e: int,
    t: int,
) -> usize {
    node_numbers[triangles[e].corner(t) - 1]
}

/// Corner `t` of element `e` reaches a node whose number addresses one of `n_values` values.
pub open spec fn corner_has_value(
    triangles: Seq<Element>,
    node_numbers: Seq<usize>,
    n_values: nat,
    e: int,
    t: int,
) -> bool {
    1 <= corner_number(triangles, node_numbers, e, t) <= n_values
}

/// Every corner of element `e` reaches a node whose number addresses a value.
pub open spec fn element_has_values(
    triangles: Seq<Element>,
    node_numbers: Seq<usize>,
    n_values: nat,
    e: int,
) -> bool {
    &&& corner_has_value(triangles, node_numbers, n_values, e, 0)
    &&& corner_has_value(triangles, node_numbers, n_values, e, 1)
    &&& corner_has_value(triangles, node_numbers, n_values, e, 2)
}

/// Every element reaches only nodes whose numbers address one of `n_values` values.
pub open spec fn values_valid(
    triangles: Seq<Element>,
    node_numbers: Seq<usize>,
    n_values: nat,
) -> bool {
    forall|e: int|
        0 <= e < triangles.len() ==> #[trigger] element_has_values(
            triangles,
            node_numbers,
            n_values,
            e,
        )
}

/// The first out-of-range node number reached by element `e`
/// (meaningful when `!element_has_values(..)`).
pub open spec fn first_bad_number(
    triangles: Seq<Element>,
    node_numbers: Seq<usize>,
    n_values: nat,
    e: int,
) -> usize {
    if !corner_has_value(triangles, node_numbers, n_values, e, 0) {
        corner_number(triangles, node_numbers, e, 0)
    } else if !corner_has_value(triangles, node_numbers, n_values, e, 1) {
        corner_number(triangles, node_numbers, e, 1)
    } else {
        corner_number(triangles, node_numbers, e, 2)
    }
}

/// Checks that every node reached by an element carries a number in `1..=n_values`;
/// reports the first element that does not.
pub fn check_value_map(triangles: &Vec<Element>, node_numbers: &Vec<usize>, n_values: usize) -> (res:
    Result<(), MeshError>)
    requires
        mesh_valid(triangles@, node_numbers@.len()),
    ensures
        res is Ok <==> values_valid(triangles@, node_numbers@, n_values as nat),
        res is Ok <==> forall|e: int|
            0 <= e < triangles@.len() ==> {
                &&& 1 <= node_numbers@[(#[trigger] triangles@[e]).node_i - 1] <= n_values
                &&& 1 <= node_numbers@[triangles@[e].node_j - 1] <= n_values
                &&& 1 <= node_numbers@[triangles@[e].node_k - 1] <= n_values
            },
        res matches Err(MeshError::ValueOutOfRange { element, node }) ==> {
            let t = triangles@[element as int];
            &&& element < triangles@.len()
            &&& !(1 <= node <= n_values)
            &&& (node == node_numbers@[t.node_i - 1] || (1 <= node_numbers@[t.node_i - 1] <= n_values
                && (node == node_numbers@[t.node_j - 1] || (1 <= node_numbers@[t.node_j - 1]
                <= n_values && node == node_numbers@[t.node_k - 1]))))
            &&& forall|f: int|
                0 <= f < element ==> {
                    &&& 1 <= node_numbers@[(#[trigger] triangles@[f]).node_i - 1] <= n_values
                    &&& 1 <= node_numbers@[triangles@[f].node_j - 1] <= n_values
                    &&& 1 <= node_numbers@[triangles@[f].node_k - 1] <= n_values
                }
        },
        res is Err ==> res matches Err(MeshError::ValueOutOfRange { .. }),
        res matches Err(MeshError::ValueOutOfRange { element, node }) ==> {
            &&& element < triangles@.len()
            &&& !element_has_values(triangles@, node_numbers@, n_values as nat, element as int)
            &&& forall|f: int|
                0 <= f < element ==> #[trigger] element_has_values(
                    triangles@,
                    node_numbers@,
                    n_values as nat,
                    f,
                )
            &&& node == first_bad_number(triangles@, node_numbers@, n_values as nat, element as int)
        },
{
    let mut e: usize = 0;
    while e < triangles.len()
        invariant
            0 <= e <= triangles@.len(),
            mesh_valid(triangles@, node_numbers@.len()),
            forall|f: int|
                0 <= f < e ==> #[trigger] element_has_values(
                    triangles@,
                    node_numbers@,
                    n_values as nat,
                    f,
                ),
            forall|f: int|
                0 <= f < e ==> {
                    &&& 1 <= node_numbers@[(#[trigger] triangles@[f]).node_i - 1] <= n_values
                    &&& 1 <= node_numbers@[triangles@[f].node_j - 1] <= n_values
                    &&& 1 <= node_numbers@[triangles@[f].node_k - 1] <= n_values
                },
        decreases triangles@.len() - e,
    {
        assert(triangles@[e as int].valid(node_numbers@.len()));
        let d = triangles[e].dofs(node_numbers.len());
        proof {
            lemma_values_valid_in_range(triangles@, node_numbers@, n_values as nat);
        }
        let mut t: usize = 0;
        while t < 3
            invariant
                0 <= e < triangles@.len(),
                0 <= t <= 3,
                forall|f: int|
                    0 <= f < e ==> #[trigger] element_has_values(
                        triangles@,
                        node_numbers@,
                        n_values as nat,
                        f,
                    ),
                forall|f: int|
                    0 <= f < e ==> {
                        &&& 1 <= node_numbers@[(#[trigger] triangles@[f]).node_i - 1] <= n_values
                        &&& 1 <= node_numbers@[triangles@[f].node_j - 1] <= n_values
                        &&& 1 <= node_numbers@[triangles@[f].node_k - 1] <= n_values
                    },
                d[0] == triangles@[e as int].node_i - 1,
                d[1] == triangles@[e as int].node_j - 1,
                d[2] == triangles@[e as int].node_k - 1,
                forall|s: int| 0 <= s < 3 ==> d[s] == triangles@[e as int].corner(s) - 1,
                forall|s: int| 0 <= s < 3 ==> d[s] < node_numbers@.len(),
                forall|s: int|
                    0 <= s < t ==> corner_has_value(
                        triangles@,
                        node_numbers@,
                        n_values as nat,
                        e as int,
                        s,
                    ),
            decreases 3 - t,
        {
            let number = node_numbers[d[t]];
            assert(number == corner_number(triangles@, node_numbers@, e as int, t as int));
            if !(1 <= number && number <= n_values) {
                assert(!element_has_values(triangles@, node_numbers@, n_values as nat, e as int));
                proof {
                    lemma_corner_reads_listed_node(triangles@, node_numbers@, e as int);
                    if t >= 1 {
                        assert(corner_has_value(triangles@, node_numbers@, n_values as nat, e as int, 0));
                    }
                    if t >= 2 {
                        assert(corner_has_value(triangles@, node_numbers@, n_values as nat, e as int, 1));
                    }
                }
                return Err(MeshError::ValueOutOfRange { element: e, node: number });
            }
            t = t + 1;
        }
        proof {
            lemma_corner_reads_listed_node(triangles@, node_numbers@, e as int);
            assert(corner_has_value(triangles@, node_numbers@, n_values as nat, e as int, 0));
            assert(corner_has_value(triangles@, node_numbers@, n_values as nat, e as int, 1));
            assert(corner_has_value(triangles@, node_numbers@, n_values as nat, e as int, 2));
        }
        e = e + 1;
    }
    proof {
        lemma_values_valid_in_range(triangles@, node_numbers@, n_values as nat);
    }
    Ok(())
}

/// For every element, the 0-based positions in the value vector of the values
/// belonging to its three corners: the node record at position `corner - 1`
/// carries number `m`, whose value sits at position `m - 1`.
pub fn triangle_value_indices(
    triangles: &Vec<Element>,
    node_numbers: &Vec<usize>,
    n_values: usize,
) -> (slots: Vec<[usize; 3]>)
    requires
        mesh_valid(triangles@, node_numbers@.len()),
        values_valid(triangles@, node_numbers@, n_values as nat),
    ensures
        slots@.len() == triangles@.len(),
        forall|e: int, t: int|
            0 <= e < triangles@.len() && 0 <= t < 3 ==> #[trigger] slots@[e][t] == corner_number(
                triangles@,
                node_numbers@,
                e,
                t,
            ) - 1 && slots@[e][t] < n_values,
        forall|e: int|
            0 <= e < triangles@.len() ==> {
                &&& (#[trigger] slots@[e])[0] == node_numbers@[triangles@[e].node_i - 1] - 1
                &&& slots@[e][1] == node_numbers@[triangles@[e].node_j - 1] - 1
                &&& slots@[e][2] == node_numbers@[triangles@[e].node_k - 1] - 1
            },
{
    let mut slots: Vec<[usize; 3]> = Vec::new();
    let mut e: usize = 0;
    while e < triangles.len()
        invariant
            0 <= e <= triangles@.len(),
            mesh_valid(triangles@, node_numbers@.len()),
            values_valid(triangles@, node_numbers@, n_values as nat),
            slots@.len() == e,
            forall|f: int, t: int|
                0 <= f < e && 0 <= t < 3 ==> #[trigger] slots@[f][t] == corner_number(
                    triangles@,
                    node_numbers@,
                    f,
                    t,
                ) - 1 && slots@[f][t] < n_values,
        decreases triangles@.len() - e,
    {
        assert(triangles@[e as int].valid(node_numbers@.len()));
        assert(element_has_values(triangles@, node_numbers@, n_values as nat, e as int));
        let d = triangles[e].dofs(node_numbers.len());
        let s = [node_numbers[d[0]] - 1, node_numbers[d[1]] - 1, node_numbers[d[2]] - 1];
        slots.push(s);
        e = e + 1;
    }
    slots
}

/// An element is accepted exactly when each of its three listed corner
/// identifiers `node_i`, `node_j`, `node_k` lies in `1..=n`.
pub proof fn lemma_mesh_valid_in_range(triangles: Seq<Element>, n: nat)
    ensures
        mesh_valid(triangles, n) <==> forall|e: int|
            0 <= e < triangles.len() ==> {
                &&& 1 <= (#[trigger] triangles[e]).node_i <= n
                &&& 1 <= triangles[e].node_j <= n
                &&& 1 <= triangles[e].node_k <= n
            },
{
    if mesh_valid(triangles, n) {
        assert forall|e: int| 0 <= e < triangles.len() implies {
            &&& 1 <= (#[trigger] triangles[e]).node_i <= n
            &&& 1 <= triangles[e].node_j <= n
            &&& 1 <= triangles[e].node_k <= n
        } by {
            assert(triangles[e].valid(n));
        }
    }
    if forall|e: int|
        0 <= e < triangles.len() ==> {
            &&& 1 <= (#[trigger] triangles[e]).node_i <= n
            &&& 1 <= triangles[e].node_j <= n
            &&& 1 <= triangles[e].node_k <= n
        } {
        assert forall|e: int| 0 <= e < triangles.len() implies #[trigger] triangles[e].valid(n) by {
            assert(1 <= triangles[e].node_i <= n);
        }
    }
}

/// Corner `0`, `1`, `2` of an element is its listed `node_i`, `node_j`, `node_k`,
/// and the value of a corner is read through the node record at position
/// `identifier - 1`.
pub proof fn lemma_corner_reads_listed_node(triangles: Seq<Element>, node_numbers: Seq<usize>, e: int)
    requires
        0 <= e < triangles.len(),
    ensures
        triangles[e].corner(0) == triangles[e].node_i,
        triangles[e].corner(1) == triangles[e].node_j,
        triangles[e].corner(2) == triangles[e].node_k,
        corner_number(triangles, node_numbers, e, 0) == node_numbers[triangles[e].node_i - 1],
        corner_number(triangles, node_numbers, e, 1) == node_numbers[triangles[e].node_j - 1],
        corner_number(triangles, node_numbers, e, 2) == node_numbers[triangles[e].node_k - 1],
{
}

/// Every corner of every element has a value exactly when the node record at
/// position `identifier - 1` carries a number in `1..=n_values`, for each of
/// `node_i`, `node_j`, `node_k`.
pub proof fn lemma_values_valid_in_range(
    triangles: Seq<Element>,
    node_numbers: Seq<usize>,
    n_values: nat,
)
    ensures
        values_valid(triangles, node_numbers, n_values) <==> forall|e: int|
            0 <= e < triangles.len() ==> {
                &&& 1 <= node_numbers[(#[trigger] triangles[e]).node_i - 1] <= n_values
                &&& 1 <= node_numbers[triangles[e].node_j - 1] <= n_values
                &&& 1 <= node_numbers[triangles[e].node_k - 1] <= n_values
            },
{
    if values_valid(triangles, node_numbers, n_values) {
        assert forall|e: int| 0 <= e < triangles.len() implies {
            &&& 1 <= node_numbers[(#[trigger] triangles[e]).node_i - 1] <= n_values
            &&& 1 <= node_numbers[triangles[e].node_j - 1] <= n_values
            &&& 1 <= node_numbers[triangles[e].node_k - 1] <= n_values
        } by {
            assert(element_has_values(triangles, node_numbers, n_values, e));
        }
    }
    if forall|e: int|
        0 <= e < triangles.len() ==> {
            &&& 1 <= node_numbers[(#[trigger] triangles[e]).node_i - 1] <= n_values
            &&& 1 <= node_numbers[triangles[e].node_j - 1] <= n_values
            &&& 1 <= node_numbers[triangles[e].node_k - 1] <= n_values
        } {
        assert forall|e: int| 0 <= e < triangles.len() implies #[trigger] element_has_values(
            triangles,
            node_numbers,
            n_values,
            e,
        ) by {
            assert(1 <= node_numbers[triangles[e].node_i - 1] <= n_values);
        }
    }
}

} // verus!
