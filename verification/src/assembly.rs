//! Scatter plan of element stiffness contributions into the global matrix.
//!
//! Every element adds its 3 x 3 matrix into the rows and columns of its
//! corner nodes. The plan lists these additions in the order in which they are
//! applied: element by element, then local row, then local column.

use vstd::prelude::*;
use crate::mesh::{Element, mesh_valid};

verus! {

/// One addition `global[row][col] += local_matrix(element)[local_row][local_col]`.
#[derive(Clone, Copy, Debug, PartialEq, Eq, Structural)]
pub struct Contribution {
    pub row: usize,
    pub col: usize,
    pub element: usize,
    pub local_row: usize,
    pub local_col: usize,
}

impl Contribution {
    /// The same addition with rows and columns exchanged.
    pub open spec fn mirrored(self) -> Contribution {
        Contribution {
            row: self.col,
            col: self.row,
            element: self.element,
            local_row: self.local_col,
            local_col: self.local_row,
        }
    }
}

/// The addition that entry `(i, j)` of element `e` makes.
pub open spec fn planned(triangles: Seq<Element>, e: int, i: int, j: int) -> Contribution {
    Contribution {
        row: (triangles[e].corner(i) - 1) as usize,
        col: (triangles[e].corner(j) - 1) as usize,
        element: e as usize,
        local_row: i as usize,
        local_col: j as usize,
    }
}

/// `plan` holds, at position `9 * e + 3 * i + j`, the addition of entry `(i, j)` of element `e`.
pub open spec fn is_assembly_plan(triangles: Seq<Element>, plan: Seq<Contribution>) -> bool {
    &&& plan.len() == 9 * triangles.len()
    &&& forall|e: int, i: int, j: int|
        #![trigger plan[9 * e + 3 * i + j]]
        #![trigger planned(triangles, e, i, j)]
        0 <= e < triangles.len() && 0 <= i < 3 && 0 <= j < 3 ==> plan[9 * e + 3 * i + j]
            == planned(triangles, e, i, j)
}

/// The additions that assemble the global stiffness matrix of an `n_nodes`-node
/// mesh from the element matrices, in the order in which they are made.
pub fn assembly_plan(triangles: &Vec<Element>, n_nodes: usize) -> (plan: Vec<Contribution>)
    requires
        mesh_valid(triangles@, n_nodes as nat),
    ensures
        is_assembly_plan(triangles@, plan@),
        plan@.len() == 9 * triangles@.len(),
        forall|e: int, i: int, j: int|
            #![trigger plan@[9 * e + 3 * i + j]]
            0 <= e < triangles@.len() && 0 <= i < 3 && 0 <= j < 3 ==> {
                let t = triangles@[e];
                &&& plan@[9 * e + 3 * i + j].row == (if i == 0 {
                    t.node_i
                } else if i == 1 {
                    t.node_j
                } else {
                    t.node_k
                }) - 1
                &&& plan@[9 * e + 3 * i + j].col == (if j == 0 {
                    t.node_i
                } else if j == 1 {
                    t.node_j
                } else {
                    t.node_k
                }) - 1
                &&& plan@[9 * e + 3 * i + j].element == e
                &&& plan@[9 * e + 3 * i + j].local_row == i
                &&& plan@[9 * e + 3 * i + j].local_col == j
            },
        forall|p: int| #![trigger plan@[p]] 0 <= p < plan@.len() ==> plan@[p].row < n_nodes && plan@[p].col < n_nodes,
{
    let mut plan: Vec<Contribution> = Vec::new();
    let mut e: usize = 0;
    while e < triangles.len()
        invariant
            0 <= e <= triangles@.len(),
            mesh_valid(triangles@, n_nodes as nat),
            plan@.len() == 9 * e,
            forall|f: int, i: int, j: int|
                0 <= f < e && 0 <= i < 3 && 0 <= j < 3 ==> #[trigger] plan@[9 * f + 3 * i + j]
                    == planned(triangles@, f, i, j),
            forall|p: int| 0 <= p < plan@.len() ==> #[trigger] plan@[p].row < n_nodes && plan@[p].col < n_nodes,
        decreases triangles@.len() - e,
    {
        assert(triangles@[e as int].valid(n_nodes as nat));
        let dofs = triangles[e].dofs(n_nodes);
        let mut i: usize = 0;
        while i < 3
            invariant
                0 <= e < triangles@.len(),
                0 <= i <= 3,
                forall|t: int| 0 <= t < 3 ==> dofs[t] == triangles@[e as int].corner(t) - 1 && dofs[t] < n_nodes,
                plan@.len() == 9 * e + 3 * i,
                forall|f: int, a: int, b: int|
                    0 <= f < e && 0 <= a < 3 && 0 <= b < 3 ==> #[trigger] plan@[9 * f + 3 * a + b]
                        == planned(triangles@, f, a, b),
                forall|a: int, b: int|
                    0 <= a < i && 0 <= b < 3 ==> #[trigger] plan@[9 * e + 3 * a + b]
                        == planned(triangles@, e as int, a, b),
                forall|p: int| 0 <= p < plan@.len() ==> #[trigger] plan@[p].row < n_nodes && plan@[p].col < n_nodes,
            decreases 3 - i,
        {
            let mut j: usize = 0;
            while j < 3
                invariant
                    0 <= e < triangles@.len(),
                    0 <= i < 3,
                    0 <= j <= 3,
                    forall|t: int| 0 <= t < 3 ==> dofs[t] == triangles@[e as int].corner(t) - 1 && dofs[t] < n_nodes,
                    plan@.len() == 9 * e + 3 * i + j,
                    forall|f: int, a: int, b: int|
                        0 <= f < e && 0 <= a < 3 && 0 <= b < 3 ==> #[trigger] plan@[9 * f + 3 * a + b]
                            == planned(triangles@, f, a, b),
                    forall|a: int, b: int|
                        0 <= a < i && 0 <= b < 3 ==> #[trigger] plan@[9 * e + 3 * a + b]
                            == planned(triangles@, e as int, a, b),
                    forall|b: int|
                        0 <= b < j ==> #[trigger] plan@[9 * e + 3 * i + b]
                            == planned(triangles@, e as int, i as int, b),
                    forall|p: int| 0 <= p < plan@.len() ==> #[trigger] plan@[p].row < n_nodes && plan@[p].col < n_nodes,
                decreases 3 - j,
            {
                let c = Contribution {
                    row: dofs[i],
                    col: dofs[j],
                    element: e,
                    local_row: i,
                    local_col: j,
                };
                assert(c == planned(triangles@, e as int, i as int, j as int));
                plan.push(c);
                j = j + 1;
            }
            i = i + 1;
        }
        e = e + 1;
    }
    assert forall|e: int| 0 <= e < triangles@.len() implies {
        &&& 1 <= (#[trigger] triangles@[e]).node_i
        &&& 1 <= triangles@[e].node_j
        &&& 1 <= triangles@[e].node_k
    } by {
        assert(triangles@[e].valid(n_nodes as nat));
    }
    proof {
        lemma_plan_scatters_listed_corners(triangles@, plan@);
    }
    assert(forall|p: int| #![trigger plan@[p]] 0 <= p < plan@.len() ==> plan@[p].row < n_nodes && plan@[p].col < n_nodes);
    plan
}

/// Position of the mirror image of position `p` in a plan: entry `(i, j)` of an
/// element sits at `9 * e + 3 * i + j`, entry `(j, i)` at `9 * e + 3 * j + i`.
pub open spec fn mirror_position(p: int) -> int {
    9 * (p / 9) + 3 * (p % 3) + (p % 9) / 3
}

/// The scatter plan is symmetric: whenever it adds local entry `(i, j)` of an element
/// into global cell `(r, c)`, it also adds local entry `(j, i)` of the same element
/// into global cell `(c, r)`. Symmetric element matrices therefore assemble into a
/// symmetric global matrix.
pub proof fn lemma_plan_symmetric(triangles: Seq<Element>, plan: Seq<Contribution>)
    requires
        is_assembly_plan(triangles, plan),
    ensures
        forall|p: int|
            0 <= p < plan.len() ==> 0 <= #[trigger] mirror_position(p) < plan.len() && plan[mirror_position(p)]
                == plan[p].mirrored(),
{
    assert forall|p: int| 0 <= p < plan.len() implies 0 <= #[trigger] mirror_position(p) < plan.len()
        && plan[mirror_position(p)] == plan[p].mirrored() by {
        let e = p / 9;
        let i = (p % 9) / 3;
        let j = p % 3;
        assert(p == 9 * e + 3 * i + j);
        assert(0 <= e < triangles.len());
        assert(mirror_position(p) == 9 * e + 3 * j + i);
        assert(plan[9 * e + 3 * i + j] == planned(triangles, e, i, j));
        assert(plan[9 * e + 3 * j + i] == planned(triangles, e, j, i));
    }
}

/// Local entry `(i, j)` of element `e` is added, at position `9 * e + 3 * i + j`,
/// into the global cell whose row is the `i`-th and whose column is the `j`-th of the
/// element's listed corner identifiers `node_i`, `node_j`, `node_k`, each less one;
/// the same rule holds for every element.
pub proof fn lemma_plan_scatters_listed_corners(triangles: Seq<Element>, plan: Seq<Contribution>)
    requires
        is_assembly_plan(triangles, plan),
        triangles.len() <= usize::MAX,
        forall|e: int|
            0 <= e < triangles.len() ==> {
                &&& 1 <= (#[trigger] triangles[e]).node_i
                &&& 1 <= triangles[e].node_j
                &&& 1 <= triangles[e].node_k
            },
    ensures
        forall|e: int, i: int, j: int|
            #![trigger plan[9 * e + 3 * i + j]]
            0 <= e < triangles.len() && 0 <= i < 3 && 0 <= j < 3 ==> {
                let t = triangles[e];
                &&& plan[9 * e + 3 * i + j].row == (if i == 0 {
                    t.node_i
                } else if i == 1 {
                    t.node_j
                } else {
                    t.node_k
                }) - 1
                &&& plan[9 * e + 3 * i + j].col == (if j == 0 {
                    t.node_i
                } else if j == 1 {
                    t.node_j
                } else {
                    t.node_k
                }) - 1
                &&& plan[9 * e + 3 * i + j].element == e
                &&& plan[9 * e + 3 * i + j].local_row == i
                &&& plan[9 * e + 3 * i + j].local_col == j
            },
{
    assert forall|e: int, i: int, j: int|
        #![trigger plan[9 * e + 3 * i + j]]
        0 <= e < triangles.len() && 0 <= i < 3 && 0 <= j < 3 implies {
                let t = triangles[e];
                &&& plan[9 * e + 3 * i + j].row == (if i == 0 {
                    t.node_i
                } else if i == 1 {
                    t.node_j
                } else {
                    t.node_k
                }) - 1
                &&& plan[9 * e + 3 * i + j].col == (if j == 0 {
                    t.node_i
                } else if j == 1 {
                    t.node_j
                } else {
                    t.node_k
                }) - 1
                &&& plan[9 * e + 3 * i + j].element == e
                &&& plan[9 * e + 3 * i + j].local_row == i
                &&& plan[9 * e + 3 * i + j].local_col == j
            } by {
        assert(plan[9 * e + 3 * i + j] == planned(triangles, e, i, j));
    }
}

} // verus!
