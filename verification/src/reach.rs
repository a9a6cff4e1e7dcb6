//! Reachability in the heap graph, and the order in which the cells that
//! survive a collection are laid out.

use crate::value::ValueView;
use vstd::prelude::*;

verus! {

/// The cells of a heap as the collector sees them: `None` for a dead cell.
pub type Cells = Seq<Option<ValueView>>;

/// Whether `i` is the index of a cell that is not dead.
pub open spec fn live(cells: Cells, i: int) -> bool {
    0 <= i < cells.len() && cells[i].is_some()
}

/// Whether one of the handles is the index `j`.
pub open spec fn holds(handles: Seq<usize>, j: int) -> bool {
    exists|k: int| 0 <= k < handles.len() && #[trigger] handles[k] as int == j
}

/// Whether the live cell `i` holds a handle to the live cell `j`.
pub open spec fn edge(cells: Cells, i: int, j: int) -> bool {
    live(cells, i) && live(cells, j) && holds(cells[i].unwrap().handles(), j)
}

/// Whether `path` leads from a seed along handles, through live cells only.
pub open spec fn is_path(cells: Cells, seeds: Seq<usize>, path: Seq<int>) -> bool {
    &&& path.len() > 0
    &&& holds(seeds, path[0])
    &&& live(cells, path[0])
    &&& forall|k: int| 0 <= k < path.len() - 1 ==> edge(cells, #[trigger] path[k], path[k + 1])
}

/// Whether the cell `i` is live and a seed, or can be reached from a live
/// seed by following handles.
#[verifier::opaque]
pub open spec fn reachable(cells: Cells, seeds: Seq<usize>, i: int) -> bool {
    exists|path: Seq<int>| is_path(cells, seeds, path) && path.last() == i
}

/// For each index, whether the cell there is reachable.
pub open spec fn reach_marks(cells: Cells, seeds: Seq<usize>) -> Seq<bool> {
    Seq::new(cells.len(), |i: int| reachable(cells, seeds, i))
}

/// A live seed is reachable.
pub proof fn lemma_seed_reachable(cells: Cells, seeds: Seq<usize>, s: usize)
    requires
        seeds.contains(s),
        live(cells, s as int),
    ensures
        reachable(cells, seeds, s as int),
{
    reveal(reachable);
    let path = seq![s as int];
    let k = choose|k: int| 0 <= k < seeds.len() && seeds[k] == s;
    assert(seeds[k] as int == path[0]);
    assert(is_path(cells, seeds, path));
    assert(path.last() == s as int);
}

/// What a reachable cell points to is reachable.
pub proof fn lemma_step_reachable(cells: Cells, seeds: Seq<usize>, i: int, j: int)
    requires
        reachable(cells, seeds, i),
        edge(cells, i, j),
    ensures
        reachable(cells, seeds, j),
{
    reveal(reachable);
    let p = choose|path: Seq<int>| is_path(cells, seeds, path) && path.last() == i;
    let q = p.push(j);
    assert forall|k: int| 0 <= k < q.len() - 1 implies edge(cells, #[trigger] q[k], q[k + 1]) by {
        if k < p.len() - 1 {
            assert(q[k] == p[k]);
            assert(q[k + 1] == p[k + 1]);
            assert(edge(cells, p[k], p[k + 1]));
        } else {
            assert(q[k] == i);
        }
    }
    assert(q[0] == p[0]);
    assert(is_path(cells, seeds, q));
    assert(q.last() == j);
}

/// A reachable cell is live.
pub proof fn lemma_reachable_live(cells: Cells, seeds: Seq<usize>, i: int)
    requires
        reachable(cells, seeds, i),
    ensures
        live(cells, i),
{
    reveal(reachable);
    let p = choose|path: Seq<int>| is_path(cells, seeds, path) && path.last() == i;
    if p.len() > 1 {
        let k = p.len() - 2;
        assert(edge(cells, p[k], p[k + 1]));
    }
}

/// A set of cells that holds every live seed and is closed under handles
/// holds every cell on a path.
proof fn lemma_closed_holds_path(cells: Cells, seeds: Seq<usize>, marks: Seq<bool>, path: Seq<int>)
    requires
        marks.len() == cells.len(),
        is_path(cells, seeds, path),
        forall|s: int|
            0 <= s < seeds.len() && live(cells, seeds[s] as int) ==> marks[seeds[s] as int],
        forall|i: int, j: int| 0 <= i < marks.len() && marks[i] && edge(cells, i, j) ==> marks[j],
    ensures
        marks[path.last()],
    decreases path.len(),
{
    if path.len() == 1 {
        let s = choose|s: int| 0 <= s < seeds.len() && #[trigger] seeds[s] as int == path[0];
        assert(live(cells, seeds[s] as int));
    } else {
        let front = path.drop_last();
        assert forall|k: int| 0 <= k < front.len() - 1 implies edge(
            cells,
            #[trigger] front[k],
            front[k + 1],
        ) by {
            assert(front[k] == path[k]);
            assert(front[k + 1] == path[k + 1]);
            assert(edge(cells, path[k], path[k + 1]));
        }
        assert(front[0] == path[0]);
        lemma_closed_holds_path(cells, seeds, marks, front);
        let k = path.len() - 2;
        assert(edge(cells, path[k], path[k + 1]));
        assert(front.last() == path[k]);
    }
}

/// Marks that hold only reachable cells, hold every live seed and are
/// closed under handles are exactly the reachable cells.
pub proof fn lemma_marks_are_reach(cells: Cells, seeds: Seq<usize>, marks: Seq<bool>)
    requires
        marks.len() == cells.len(),
        forall|i: int| 0 <= i < marks.len() && marks[i] ==> reachable(cells, seeds, i),
        forall|s: int|
            0 <= s < seeds.len() && live(cells, seeds[s] as int) ==> marks[seeds[s] as int],
        forall|i: int, j: int| 0 <= i < marks.len() && marks[i] && edge(cells, i, j) ==> marks[j],
    ensures
        marks == reach_marks(cells, seeds),
{
    reveal(reachable);
    assert forall|i: int| 0 <= i < marks.len() implies marks[i] == reachable(
        cells,
        seeds,
        i,
    ) by {
        if reachable(cells, seeds, i) {
            let p = choose|path: Seq<int>| is_path(cells, seeds, path) && path.last() == i;
            lemma_closed_holds_path(cells, seeds, marks, p);
        }
    }
    assert(marks =~= reach_marks(cells, seeds));
}

/// The marked indices below `n`, in increasing order.
pub open spec fn survivors(marks: Seq<bool>, n: int) -> Seq<int>
    decreases n,
{
    if n <= 0 || n > marks.len() {
        Seq::<int>::empty()
    } else if marks[n - 1] {
        survivors(marks, n - 1).push(n - 1)
    } else {
        survivors(marks, n - 1)
    }
}

/// The number of marked indices below `i`: the place that a marked cell `i`
/// takes among the survivors.
pub open spec fn rank(marks: Seq<bool>, i: int) -> int {
    survivors(marks, i).len() as int
}

/// The number of marks that are not set.
pub open spec fn unmarked(marks: Seq<bool>) -> int {
    marks.len() - rank(marks, marks.len() as int)
}

/// Survivors are marked indices below the bound, there are at most as many
/// as the bound, and a marked index stands at its rank.
pub proof fn lemma_survivors(marks: Seq<bool>, n: int)
    requires
        0 <= n <= marks.len(),
    ensures
        rank(marks, n) <= n,
        forall|k: int|
            0 <= k < rank(marks, n) ==> 0 <= #[trigger] survivors(marks, n)[k] < n && marks[survivors(
                marks,
                n,
            )[k]],
        forall|i: int|
            0 <= i < n && marks[i] ==> 0 <= #[trigger] rank(marks, i) < rank(marks, n) && survivors(
                marks,
                n,
            )[rank(marks, i)] == i,
        forall|k: int|
            0 <= k < rank(marks, n) ==> rank(marks, #[trigger] survivors(marks, n)[k]) == k,
    decreases n,
{
    if n > 0 {
        lemma_survivors(marks, n - 1);
        let prev = survivors(marks, n - 1);
        let cur = survivors(marks, n);
        assert forall|i: int| 0 <= i < n && marks[i] implies 0 <= #[trigger] rank(marks, i) < rank(
            marks,
            n,
        ) && cur[rank(marks, i)] == i by {
            if i < n - 1 {
                assert(prev[rank(marks, i)] == i);
            }
        }
        assert forall|k: int| 0 <= k < rank(marks, n) implies rank(
            marks,
            #[trigger] cur[k],
        ) == k by {
            if k < prev.len() {
                assert(cur[k] == prev[k]);
            }
        }
    }
}

/// Rank grows with the index, and strictly past a marked index.
pub proof fn lemma_rank_monotone(marks: Seq<bool>, i: int, j: int)
    requires
        0 <= i <= j <= marks.len(),
    ensures
        rank(marks, i) <= rank(marks, j),
        i < j && marks[i] ==> rank(marks, i) < rank(marks, j),
    decreases j - i,
{
    if i < j {
        lemma_rank_monotone(marks, i, j - 1);
        if i == j - 1 {
        }
    }
}

/// Ranks depend only on the marks below the index.
pub proof fn lemma_rank_prefix(a: Seq<bool>, b: Seq<bool>, n: int)
    requires
        0 <= n <= a.len(),
        n <= b.len(),
        forall|i: int| 0 <= i < n ==> a[i] == b[i],
    ensures
        survivors(a, n) == survivors(b, n),
    decreases n,
{
    if n > 0 {
        lemma_rank_prefix(a, b, n - 1);
    }
}

/// Setting one mark that was not set leaves one unmarked index fewer.
pub proof fn lemma_mark_one(marks: Seq<bool>, c: int)
    requires
        0 <= c < marks.len(),
        !marks[c],
    ensures
        unmarked(marks.update(c, true)) == unmarked(marks) - 1,
{
    lemma_rank_update(marks, c, marks.len() as int);
}

proof fn lemma_rank_update(marks: Seq<bool>, c: int, n: int)
    requires
        0 <= c < marks.len(),
        !marks[c],
        0 <= n <= marks.len(),
    ensures
        rank(marks.update(c, true), n) == rank(marks, n) + if c < n {
            1int
        } else {
            0int
        },
    decreases n,
{
    if n > 0 {
        lemma_rank_update(marks, c, n - 1);
    }
}

/// The table that sends each marked index to its rank and every other index
/// to the index that no cell has.
pub open spec fn forwarding_table(marks: Seq<bool>) -> Seq<usize> {
    Seq::new(
        marks.len(),
        |i: int|
            if marks[i] {
                rank(marks, i) as usize
            } else {
                usize::MAX
            },
    )
}

} // verus!
