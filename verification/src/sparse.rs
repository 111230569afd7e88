//! Coordinate (triplet) storage pattern of the assembled global matrix.
//!
//! The sparse solver receives the entries of the matrix that are not zero,
//! visited row by row and, within a row, column by column.

use vstd::prelude::*;

verus! {

/// Positions `(r, c)` with `c < j` that are marked in row `r`, in increasing column order.
pub open spec fn row_pattern(row: Seq<bool>, r: int, j: int) -> Seq<(usize, usize)>
    decreases j,
{
    if j <= 0 {
        Seq::empty()
    } else if row[j - 1] {
        row_pattern(row, r, j - 1).push((r as usize, (j - 1) as usize))
    } else {
        row_pattern(row, r, j - 1)
    }
}

/// Marked positions of the first `i` rows, in row-major order.
pub open spec fn pattern_upto(mask: Seq<Seq<bool>>, i: int) -> Seq<(usize, usize)>
    decreases i,
{
    if i <= 0 {
        Seq::empty()
    } else {
        pattern_upto(mask, i - 1) + row_pattern(mask[i - 1], i - 1, mask[i - 1].len() as int)
    }
}

/// All marked positions of `mask`, in row-major order.
pub open spec fn nonzero_pattern(mask: Seq<Seq<bool>>) -> Seq<(usize, usize)> {
    pattern_upto(mask, mask.len() as int)
}

/// The positions of the non-zero entries of a matrix, row by row and within a row
/// column by column; `nonzero[r][c]` tells whether entry `(r, c)` is non-zero.
/// The length of the result is the number of non-zero entries.
pub fn sparse_pattern(nonzero: &Vec<Vec<bool>>) -> (entries: Vec<(usize, usize)>)
    ensures
        entries@ == nonzero_pattern(nonzero.deep_view()),
        forall|k: int|
            0 <= k < entries@.len() ==> {
                &&& (#[trigger] entries@[k]).0 < nonzero@.len()
                &&& entries@[k].1 < nonzero.deep_view()[entries@[k].0 as int].len()
                &&& nonzero.deep_view()[entries@[k].0 as int][entries@[k].1 as int]
            },
        forall|k1: int, k2: int|
            0 <= k1 < k2 < entries@.len() ==> (#[trigger] entries@[k1]).0 < (#[trigger] entries@[k2]).0 || (entries@[k1].0
                == entries@[k2].0 && entries@[k1].1 < entries@[k2].1),
        forall|r: int, c: int|
            0 <= r < nonzero@.len() && 0 <= c < nonzero.deep_view()[r].len() && #[trigger] nonzero.deep_view()[r][c] ==> exists|k: int|
                0 <= k < entries@.len() && entries@[k] == (r as usize, c as usize),
{
    let ghost mask = nonzero.deep_view();
    let mut entries: Vec<(usize, usize)> = Vec::new();
    let mut i: usize = 0;
    while i < nonzero.len()
        invariant
            0 <= i <= nonzero@.len(),
            mask == nonzero.deep_view(),
            entries@ == pattern_upto(mask, i as int),
        decreases nonzero@.len() - i,
    {
        let row = &nonzero[i];
        assert(mask[i as int] == row@);
        let mut j: usize = 0;
        while j < row.len()
            invariant
                0 <= i < nonzero@.len(),
                0 <= j <= row@.len(),
                mask == nonzero.deep_view(),
                mask[i as int] == row@,
                entries@ == pattern_upto(mask, i as int) + row_pattern(row@, i as int, j as int),
            decreases row@.len() - j,
        {
            if row[j] {
                entries.push((i, j));
                assert(pattern_upto(mask, i as int) + row_pattern(row@, i as int, j + 1)
                    =~= (pattern_upto(mask, i as int) + row_pattern(row@, i as int, j as int)).push((i, j)));
            }
            j = j + 1;
        }
        i = i + 1;
    }
    assert(mask.len() == nonzero@.len());
    assert forall|r: int| 0 <= r < mask.len() implies (#[trigger] mask[r]).len() <= usize::MAX + 1 by {
        assert(mask[r] == nonzero@[r]@);
        assert(nonzero@[r].len() == nonzero@[r]@.len());
    }
    proof {
        lemma_nonzero_pattern_exact(mask);
    }
    entries
}

/// Row-major order on matrix positions.
pub open spec fn row_major_less(a: (usize, usize), b: (usize, usize)) -> bool {
    a.0 < b.0 || (a.0 == b.0 && a.1 < b.1)
}

/// Every position is marked, and they appear strictly increasing in row-major order.
pub open spec fn sound_and_sorted(mask: Seq<Seq<bool>>, p: Seq<(usize, usize)>, rows: int) -> bool {
    &&& forall|k: int|
        0 <= k < p.len() ==> {
            &&& (#[trigger] p[k]).0 < rows
            &&& p[k].1 < mask[p[k].0 as int].len()
            &&& mask[p[k].0 as int][p[k].1 as int]
        }
    &&& forall|k1: int, k2: int|
        0 <= k1 < k2 < p.len() ==> row_major_less(#[trigger] p[k1], #[trigger] p[k2])
}

proof fn lemma_row_pattern(row: Seq<bool>, r: int, j: int)
    requires
        0 <= r <= usize::MAX,
        0 <= j <= row.len(),
        row.len() <= usize::MAX + 1,
    ensures
        forall|k: int|
            0 <= k < row_pattern(row, r, j).len() ==> {
                &&& (#[trigger] row_pattern(row, r, j)[k]).0 == r
                &&& row_pattern(row, r, j)[k].1 < j
                &&& row[row_pattern(row, r, j)[k].1 as int]
            },
        forall|k1: int, k2: int|
            0 <= k1 < k2 < row_pattern(row, r, j).len() ==> (#[trigger] row_pattern(row, r, j)[k1]).1
                < (#[trigger] row_pattern(row, r, j)[k2]).1,
        forall|c: int|
            0 <= c < j && #[trigger] row[c] ==> exists|k: int|
                0 <= k < row_pattern(row, r, j).len() && row_pattern(row, r, j)[k] == (
                r as usize,
                c as usize,
            ),
    decreases j,
{
    if j > 0 {
        lemma_row_pattern(row, r, j - 1);
        let prev = row_pattern(row, r, j - 1);
        let cur = row_pattern(row, r, j);
        if row[j - 1] {
            assert(cur == prev.push((r as usize, (j - 1) as usize)));
            assert forall|c: int| 0 <= c < j && #[trigger] row[c] implies exists|k: int|
                0 <= k < cur.len() && cur[k] == (r as usize, c as usize) by {
                if c == j - 1 {
                    assert(cur[prev.len() as int] == (r as usize, c as usize));
                } else {
                    let k = choose|k: int| 0 <= k < prev.len() && prev[k] == (r as usize, c as usize);
                    assert(cur[k] == prev[k]);
                }
            }
        } else {
            assert(cur == prev);
        }
    }
}

/// The pattern lists every non-zero position exactly once, nothing else, and in
/// strictly increasing row-major order; so its length is the number of non-zero entries.
pub proof fn lemma_pattern_exact(mask: Seq<Seq<bool>>, i: int)
    requires
        0 <= i <= mask.len(),
        mask.len() <= usize::MAX + 1,
        forall|r: int| 0 <= r < mask.len() ==> (#[trigger] mask[r]).len() <= usize::MAX + 1,
    ensures
        sound_and_sorted(mask, pattern_upto(mask, i), i),
        forall|a: int, b: int|
            0 <= a < i && 0 <= b < mask[a].len() && #[trigger] mask[a][b] ==> exists|k: int|
                0 <= k < pattern_upto(mask, i).len() && pattern_upto(mask, i)[k] == (
                a as usize,
                b as usize,
            ),
    decreases i,
{
    if i > 0 {
        lemma_pattern_exact(mask, i - 1);
        let prev = pattern_upto(mask, i - 1);
        let row = row_pattern(mask[i - 1], i - 1, mask[i - 1].len() as int);
        let cur = pattern_upto(mask, i);
        lemma_row_pattern(mask[i - 1], i - 1, mask[i - 1].len() as int);
        assert(cur == prev + row);
        assert forall|k: int| 0 <= k < cur.len() implies {
            &&& (#[trigger] cur[k]).0 < i
            &&& cur[k].1 < mask[cur[k].0 as int].len()
            &&& mask[cur[k].0 as int][cur[k].1 as int]
        } by {
            if k < prev.len() {
                assert(cur[k] == prev[k]);
            } else {
                assert(cur[k] == row[k - prev.len()]);
            }
        }
        assert forall|k1: int, k2: int| 0 <= k1 < k2 < cur.len() implies row_major_less(
            #[trigger] cur[k1],
            #[trigger] cur[k2],
        ) by {
            if k2 < prev.len() {
                assert(cur[k1] == prev[k1]);
                assert(cur[k2] == prev[k2]);
            } else if k1 < prev.len() {
                assert(cur[k1] == prev[k1]);
                assert(cur[k2] == row[k2 - prev.len()]);
            } else {
                assert(cur[k1] == row[k1 - prev.len()]);
                assert(cur[k2] == row[k2 - prev.len()]);
            }
        }
        assert forall|a: int, b: int|
            0 <= a < i && 0 <= b < mask[a].len() && #[trigger] mask[a][b] implies exists|k: int|
                0 <= k < cur.len() && cur[k] == (a as usize, b as usize) by {
            if a < i - 1 {
                let k = choose|k: int| 0 <= k < prev.len() && prev[k] == (a as usize, b as usize);
                assert(cur[k] == prev[k]);
            } else {
                assert(mask[i - 1][b]);
                let k = choose|k: int| 0 <= k < row.len() && row[k] == (a as usize, b as usize);
                assert(cur[prev.len() + k] == row[k]);
            }
        }
    }
}

/// The non-zero pattern of a matrix (rows of any length) lists only marked
/// positions, lists every marked position `(r, c)`, and lists them in strictly
/// increasing row-major order.
pub proof fn lemma_nonzero_pattern_exact(mask: Seq<Seq<bool>>)
    requires
        mask.len() <= usize::MAX + 1,
        forall|r: int| 0 <= r < mask.len() ==> (#[trigger] mask[r]).len() <= usize::MAX + 1,
    ensures
        forall|k: int|
            0 <= k < nonzero_pattern(mask).len() ==> {
                &&& (#[trigger] nonzero_pattern(mask)[k]).0 < mask.len()
                &&& nonzero_pattern(mask)[k].1 < mask[nonzero_pattern(mask)[k].0 as int].len()
                &&& mask[nonzero_pattern(mask)[k].0 as int][nonzero_pattern(mask)[k].1 as int]
            },
        forall|k1: int, k2: int|
            0 <= k1 < k2 < nonzero_pattern(mask).len() ==> (#[trigger] nonzero_pattern(mask)[k1]).0 < (#[trigger] nonzero_pattern(mask)[k2]).0 || (nonzero_pattern(mask)[k1].0
                == nonzero_pattern(mask)[k2].0 && nonzero_pattern(mask)[k1].1 < nonzero_pattern(mask)[k2].1),
        forall|r: int, c: int|
            0 <= r < mask.len() && 0 <= c < mask[r].len() && #[trigger] mask[r][c] ==> exists|k: int|
                0 <= k < nonzero_pattern(mask).len() && nonzero_pattern(mask)[k] == (r as usize, c as usize),
{
    lemma_pattern_exact(mask, mask.len() as int);
    let p = nonzero_pattern(mask);
    assert forall|r: int, c: int|
        0 <= r < mask.len() && 0 <= c < mask[r].len() && #[trigger] mask[r][c] implies exists|k: int|
            0 <= k < p.len() && p[k] == (r as usize, c as usize) by {
        let k = choose|k: int|
            0 <= k < pattern_upto(mask, mask.len() as int).len() && pattern_upto(
                mask,
                mask.len() as int,
            )[k] == (r as usize, c as usize);
        assert(p[k] == (r as usize, c as usize));
    }
}

} // verus!
