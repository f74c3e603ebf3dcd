//! What holds of every graph that `CommitGraph::new` lays out.
use vstd::prelude::*;
use crate::commit::{commit_keys, Commit};
use crate::graph::{
    carried, carry, carry_upto, cell, converge_at, converge_upto, first_corner_from,
    first_waiting_from, fresh_node, layout, layout_upto, lemma_first_corner, lemma_first_waiting,
    first_parent, live, merge_cells, next_row, node_over, CellView, Track,
};

verus! {

/// The number of cells of `row` with the given track.
pub open spec fn kind_count(row: Seq<CellView>, kind: Track) -> nat
    decreases row.len(),
{
    if row.len() == 0 {
        0
    } else {
        kind_count(row.drop_last(), kind) + if row.last().track == kind {
            1nat
        } else {
            0nat
        }
    }
}

/// The row above row `k` of `g`, or an empty row above the first.
pub open spec fn row_above(g: Seq<Seq<CellView>>, k: int) -> Seq<CellView> {
    if k <= 0 {
        Seq::empty()
    } else {
        g[k - 1]
    }
}

/// A cell that the carrying of open columns can make.
pub open spec fn carried_kind(c: CellView) -> bool {
    &&& (c.track == Track::Continue || c.track == Track::ContinueRight || c.track
        == Track::ContinueUp)
    &&& (c.track == Track::ContinueUp ==> c.parent is None)
}

/// `row` has exactly one `Node` cell, and it stands before the last `m`
/// cells.
pub open spec fn one_node_before(row: Seq<CellView>, m: int) -> bool {
    exists|x: int|
        0 <= x < row.len() - m && #[trigger] row[x].track == Track::Node && forall|j: int|
            0 <= j < row.len() && j != x ==> row[j].track != Track::Node
}

proof fn lemma_count_range(row: Seq<CellView>, kind: Track, lo: int, hi: int)
    requires
        0 <= lo <= hi <= row.len(),
        forall|j: int| 0 <= j < row.len() ==> (#[trigger] row[j].track == kind <==> lo <= j < hi),
    ensures
        kind_count(row, kind) == hi - lo,
    decreases row.len(),
{
    if row.len() > 0 {
        let last = row.len() - 1;
        let s = row.drop_last();
        if hi == row.len() && lo < hi {
            assert forall|j: int| 0 <= j < s.len() implies (#[trigger] s[j].track == kind <==> lo
                <= j < hi - 1) by {
                assert(s[j] == row[j]);
            }
            lemma_count_range(s, kind, lo, hi - 1);
        } else {
            assert(!(lo <= last < hi));
            let h2 = if hi > last {
                last
            } else {
                hi
            };
            let l2 = if lo > h2 {
                h2
            } else {
                lo
            };
            assert forall|j: int| 0 <= j < s.len() implies (#[trigger] s[j].track == kind <==> l2
                <= j < h2) by {
                assert(s[j] == row[j]);
            }
            lemma_count_range(s, kind, l2, h2);
        }
    }
}

proof fn lemma_layout_len(cs: Seq<(Seq<char>, Seq<Seq<char>>)>, n: int)
    requires
        0 <= n,
    ensures
        layout_upto(cs, n).len() == n,
    decreases n,
{
    if n > 0 {
        lemma_layout_len(cs, n - 1);
    }
}

proof fn lemma_layout_prefix(cs: Seq<(Seq<char>, Seq<Seq<char>>)>, n: int, k: int)
    requires
        0 <= k < n,
    ensures
        layout_upto(cs, n)[k] == layout_upto(cs, k + 1)[k],
    decreases n,
{
    if n > k + 1 {
        lemma_layout_len(cs, n - 1);
        lemma_layout_prefix(cs, n - 1, k);
    }
}

/// Each row of the graph is the row of its commit below the row above it.
pub proof fn lemma_layout_row(cs: Seq<(Seq<char>, Seq<Seq<char>>)>, k: int)
    requires
        0 <= k < cs.len(),
    ensures
        layout(cs).len() == cs.len(),
        layout(cs)[k] == next_row(row_above(layout(cs), k), cs[k].0, cs[k].1),
{
    lemma_layout_len(cs, cs.len() as int);
    lemma_layout_prefix(cs, cs.len() as int, k);
    lemma_layout_len(cs, k);
    if k > 0 {
        lemma_layout_prefix(cs, cs.len() as int, k - 1);
        lemma_layout_prefix(cs, k, k - 1);
    }
}

proof fn lemma_carry_upto_kinds(prev: Seq<CellView>, open: Seq<CellView>, i: int)
    requires
        0 <= i <= open.len(),
    ensures
        forall|j: int|
            0 <= j < carry_upto(prev, open, i).len() ==> carried_kind(
                #[trigger] carry_upto(prev, open, i)[j],
            ),
    decreases i,
{
    if i > 0 {
        lemma_carry_upto_kinds(prev, open, i - 1);
        let acc = carry_upto(prev, open, i - 1);
        let seg = carry(prev, open[i - 1], acc.len() as int);
        assert forall|j: int| 0 <= j < seg.len() implies carried_kind(#[trigger] seg[j]) by {}
        assert forall|j: int| 0 <= j < (acc + seg).len() implies carried_kind(
            #[trigger] (acc + seg)[j],
        ) by {
            if j >= acc.len() {
                assert((acc + seg)[j] == seg[j - acc.len()]);
            }
        }
    }
}

/// What one step of convergence changes.
proof fn lemma_converge_at(t: Seq<CellView>, r: Seq<char>, y: int)
    requires
        0 <= y < t.len(),
    ensures
        converge_at(t, r, y).len() == t.len(),
        forall|j: int| 0 <= j < y ==> #[trigger] converge_at(t, r, y)[j] == t[j],
        forall|j: int|
            0 <= j < t.len() && j != y ==> (#[trigger] converge_at(t, r, y)[j]).parent
                == t[j].parent,
        forall|j: int|
            0 <= j < t.len() ==> #[trigger] converge_at(t, r, y)[j] == t[j] || converge_at(
                t,
                r,
                y,
            )[j].track == Track::Branch || converge_at(t, r, y)[j].track
                == Track::ContinueRight,
        forall|j: int|
            0 <= j < t.len() && t[j].track == Track::Branch ==> (#[trigger] converge_at(
                t,
                r,
                y,
            )[j]).track == Track::Branch,
        t[y].parent == Some(r) ==> exists|b: int|
            0 <= b < t.len() && (#[trigger] converge_at(t, r, y)[b]).track == Track::Branch,
        forall|j: int|
            0 <= j < t.len() && (#[trigger] converge_at(t, r, y)[j]).track
                == Track::ContinueRight ==> converge_at(t, r, y)[j] == t[j] || j == y,
        t[y].parent != Some(r) ==> converge_at(t, r, y) == t,
        forall|j: int|
            0 <= j < t.len() && (#[trigger] converge_at(t, r, y)[j]).track == Track::Branch ==> (
            converge_at(t, r, y)[j] == t[j] && t[j].track == Track::Branch) || (j >= y
                && converge_at(t, r, y)[j].related == r),
{
    if t[y].parent == Some(r) {
        if t[y].track == Track::ContinueRight {
            let t1 = t.update(y, cell(None, r, Track::ContinueRight));
            let u = first_corner_from(t1, y + 1);
            lemma_first_corner(t1, y + 1);
            if u < t1.len() {
                assert(converge_at(t, r, y)[u].track == Track::Branch);
            } else {
                assert(converge_at(t, r, y)[y].track == Track::Branch);
            }
        } else {
            assert(converge_at(t, r, y)[y].track == Track::Branch);
        }
    }
}

/// Convergence after the node at `x` leaves the node alone and makes no
/// `Node` or `Merge` cell.
proof fn lemma_converge_upto_kinds(t: Seq<CellView>, r: Seq<char>, x: int, hi: int)
    requires
        0 <= x < t.len(),
        x + 1 <= hi <= t.len(),
        forall|j: int|
            0 <= j < t.len() && j != x ==> #[trigger] t[j].track != Track::Node && t[j].track
                != Track::Merge,
    ensures
        converge_upto(t, r, x + 1, hi).len() == t.len(),
        converge_upto(t, r, x + 1, hi)[x] == t[x],
        forall|j: int|
            0 <= j < t.len() && j != x ==> #[trigger] converge_upto(t, r, x + 1, hi)[j].track
                != Track::Node && converge_upto(t, r, x + 1, hi)[j].track != Track::Merge,
    decreases hi - x,
{
    if hi > x + 1 {
        lemma_converge_upto_kinds(t, r, x, hi - 1);
        let t2 = converge_upto(t, r, x + 1, hi - 1);
        lemma_converge_at(t2, r, hi - 1);
        assert forall|j: int| 0 <= j < t.len() && j != x implies #[trigger] converge_at(
            t2,
            r,
            hi - 1,
        )[j].track != Track::Node && converge_at(t2, r, hi - 1)[j].track != Track::Merge by {
            assert(converge_at(t2, r, hi - 1)[j] == t2[j] || converge_at(t2, r, hi - 1)[j].track
                == Track::Branch || converge_at(t2, r, hi - 1)[j].track == Track::ContinueRight);
        }
    }
}

/// The shape of every row: exactly one `Node` cell, before the `Merge`
/// cells, which are the last cells of the row and carry the parents after
/// the first, in order.
pub proof fn lemma_row_shape(prev: Seq<CellView>, r: Seq<char>, parents: Seq<Seq<char>>)
    ensures
        one_node_before(next_row(prev, r, parents), merge_cells(parents).len() as int),
        next_row(prev, r, parents).len() >= merge_cells(parents).len(),
        forall|j: int|
            0 <= j < next_row(prev, r, parents).len() ==> (#[trigger] next_row(
                prev,
                r,
                parents,
            )[j].track == Track::Merge <==> j >= next_row(prev, r, parents).len()
                - merge_cells(parents).len()),
        next_row(prev, r, parents).subrange(
            next_row(prev, r, parents).len() - merge_cells(parents).len(),
            next_row(prev, r, parents).len() as int,
        ) == merge_cells(parents),
{
    let t = carried(prev);
    lemma_carry_upto_kinds(prev, live(prev), live(prev).len() as int);
    let x = first_waiting_from(t, Some(r), 0);
    lemma_first_waiting(t, Some(r), 0);
    let ms = merge_cells(parents);
    let body = if x < t.len() {
        converge_upto(t.update(x, node_over(t[x], parents)), r, x + 1, t.len() as int)
    } else {
        t.push(fresh_node(r, parents))
    };
    let row = next_row(prev, r, parents);
    assert(row == body + ms);
    let nx = if x < t.len() {
        x
    } else {
        t.len() as int
    };
    if x < t.len() {
        let t1 = t.update(x, node_over(t[x], parents));
        assert forall|j: int| 0 <= j < t1.len() && j != x implies #[trigger] t1[j].track
            != Track::Node && t1[j].track != Track::Merge by {
            assert(carried_kind(t[j]));
        }
        lemma_converge_upto_kinds(t1, r, x, t.len() as int);
    } else {
        assert forall|j: int| 0 <= j < body.len() && j != nx implies #[trigger] body[j].track
            != Track::Node && body[j].track != Track::Merge by {
            assert(carried_kind(t[j]));
        }
    }
    assert(body[nx].track == Track::Node);
    assert forall|j: int| 0 <= j < row.len() && j != nx implies row[j].track != Track::Node by {
        if j >= body.len() {
            assert(row[j] == ms[j - body.len()]);
        }
    }
    assert(row[nx].track == Track::Node);
    assert forall|j: int| 0 <= j < row.len() implies (#[trigger] row[j].track == Track::Merge
        <==> j >= row.len() - ms.len()) by {
        if j >= body.len() {
            assert(row[j] == ms[j - body.len()]);
        } else {
            assert(row[j] == body[j]);
        }
    }
    assert(row.subrange(row.len() - ms.len(), row.len() as int) =~= ms);
}

/// Every row of the graph has exactly one `Node` cell, the cell of its own
/// commit, and as many `Merge` cells as its commit has parents after the
/// first.
pub proof fn layout_node_and_merge_counts(cs: Seq<(Seq<char>, Seq<Seq<char>>)>, k: int)
    requires
        0 <= k < cs.len(),
    ensures
        kind_count(layout(cs)[k], Track::Node) == 1,
        kind_count(layout(cs)[k], Track::Merge) == merge_cells(cs[k].1).len(),
{
    lemma_layout_row(cs, k);
    let row = layout(cs)[k];
    let m = merge_cells(cs[k].1).len() as int;
    lemma_row_shape(row_above(layout(cs), k), cs[k].0, cs[k].1);
    let x = choose|x: int|
        0 <= x < row.len() - m && #[trigger] row[x].track == Track::Node && forall|j: int|
            0 <= j < row.len() && j != x ==> row[j].track != Track::Node;
    lemma_count_range(row, Track::Node, x, x + 1);
    lemma_count_range(row, Track::Merge, row.len() - m, row.len() as int);
}

/// The graph has one row per commit.
pub proof fn layout_len(cs: Seq<(Seq<char>, Seq<Seq<char>>)>)
    ensures
        layout(cs).len() == cs.len(),
{
    lemma_layout_len(cs, cs.len() as int);
}

proof fn lemma_converge_upto_parents(t: Seq<CellView>, r: Seq<char>, lo: int, hi: int)
    requires
        0 <= lo <= hi <= t.len(),
    ensures
        converge_upto(t, r, lo, hi).len() == t.len(),
        forall|j: int|
            hi <= j < t.len() ==> (#[trigger] converge_upto(t, r, lo, hi)[j]).parent
                == t[j].parent,
        forall|j: int|
            0 <= j < t.len() && t[j].parent is Some && t[j].parent != Some(r) ==> (
            #[trigger] converge_upto(t, r, lo, hi)[j]).parent == t[j].parent,
    decreases hi - lo,
{
    if hi > lo {
        lemma_converge_upto_parents(t, r, lo, hi - 1);
        let t2 = converge_upto(t, r, lo, hi - 1);
        lemma_converge_at(t2, r, hi - 1);
    }
}

proof fn lemma_converge_upto_branch(t: Seq<CellView>, r: Seq<char>, lo: int, hi: int, q: int)
    requires
        0 <= lo <= q < hi <= t.len(),
        t[q].parent == Some(r),
    ensures
        exists|b: int|
            0 <= b < t.len() && (#[trigger] converge_upto(t, r, lo, hi)[b]).track
                == Track::Branch,
    decreases hi - lo,
{
    let t2 = converge_upto(t, r, lo, hi - 1);
    lemma_converge_upto_parents(t, r, lo, hi - 1);
    lemma_converge_at(t2, r, hi - 1);
    if hi - 1 > q {
        lemma_converge_upto_branch(t, r, lo, hi - 1, q);
        let b = choose|b: int|
            0 <= b < t.len() && (#[trigger] converge_upto(t, r, lo, hi - 1)[b]).track
                == Track::Branch;
        assert(converge_upto(t, r, lo, hi)[b].track == Track::Branch);
    }
}

proof fn lemma_carry_head(prev: Seq<CellView>, c: CellView, at: int)
    ensures
        carry(prev, c, at).len() >= 1,
        carry(prev, c, at)[0].parent == c.parent,
{
}

proof fn lemma_carry_prefix(prev: Seq<CellView>, open: Seq<CellView>, i: int, m: int)
    requires
        0 <= i <= m <= open.len(),
    ensures
        carry_upto(prev, open, i).len() <= carry_upto(prev, open, m).len(),
        i < m ==> carry_upto(prev, open, i).len() < carry_upto(prev, open, m).len(),
        forall|q: int|
            0 <= q < carry_upto(prev, open, i).len() ==> #[trigger] carry_upto(prev, open, m)[q]
                == carry_upto(prev, open, i)[q],
        i < m ==> carry_upto(prev, open, m)[carry_upto(prev, open, i).len() as int].parent
            == open[i].parent,
    decreases m,
{
    if m > i {
        lemma_carry_prefix(prev, open, i, m - 1);
        let acc = carry_upto(prev, open, m - 1);
        lemma_carry_head(prev, open[m - 1], acc.len() as int);
        if m - 1 == i {
            assert(carry_upto(prev, open, m)[acc.len() as int] == carry(
                prev,
                open[m - 1],
                acc.len() as int,
            )[0]);
        }
    }
}

proof fn lemma_live_index(s: Seq<CellView>, j: int)
    requires
        0 <= j < s.len(),
        s[j].parent is Some,
    ensures
        exists|i: int| 0 <= i < live(s).len() && #[trigger] live(s)[i] == s[j],
    decreases s.len(),
{
    reveal(Seq::filter);
    if j < s.len() - 1 {
        lemma_live_index(s.drop_last(), j);
        let i = choose|i: int|
            0 <= i < live(s.drop_last()).len() && #[trigger] live(s.drop_last())[i]
                == s.drop_last()[j];
        assert(live(s)[i] == s[j]);
    } else {
        assert(live(s)[live(s.drop_last()).len() as int] == s[j]);
    }
}

proof fn lemma_live_two(s: Seq<CellView>, j1: int, j2: int)
    requires
        0 <= j1 < j2 < s.len(),
        s[j1].parent is Some,
        s[j2].parent is Some,
    ensures
        exists|i1: int, i2: int|
            0 <= i1 < i2 < live(s).len() && #[trigger] live(s)[i1] == s[j1] && #[trigger] live(
                s,
            )[i2] == s[j2],
    decreases s.len(),
{
    reveal(Seq::filter);
    let d = s.drop_last();
    if j2 < s.len() - 1 {
        lemma_live_two(d, j1, j2);
        let (i1, i2) = choose|i1: int, i2: int|
            0 <= i1 < i2 < live(d).len() && #[trigger] live(d)[i1] == d[j1] && #[trigger] live(
                d,
            )[i2] == d[j2];
        assert(live(s)[i1] == s[j1] && live(s)[i2] == s[j2]);
    } else {
        lemma_live_index(d, j1);
        let i1 = choose|i: int| 0 <= i < live(d).len() && #[trigger] live(d)[i] == d[j1];
        let i2 = live(d).len() as int;
        assert(live(s)[i1] == s[j1] && live(s)[i2] == s[j2]);
    }
}

/// A column that waits for commit `p` in one row is still open, waiting for
/// `p`, in the row of any other commit `r` below it.
pub proof fn open_column_stays_open(
    prev: Seq<CellView>,
    r: Seq<char>,
    parents: Seq<Seq<char>>,
    j: int,
    p: Seq<char>,
)
    requires
        0 <= j < prev.len(),
        prev[j].parent == Some(p),
        p != r,
    ensures
        exists|i: int|
            0 <= i < next_row(prev, r, parents).len() && (#[trigger] next_row(
                prev,
                r,
                parents,
            )[i]).parent == Some(p),
{
    let open = live(prev);
    lemma_live_index(prev, j);
    let i = choose|i: int| 0 <= i < open.len() && #[trigger] open[i] == prev[j];
    lemma_carry_prefix(prev, open, i, open.len() as int);
    let t = carried(prev);
    let q = carry_upto(prev, open, i).len() as int;
    assert(t[q].parent == Some(p));
    let x = first_waiting_from(t, Some(r), 0);
    lemma_first_waiting(t, Some(r), 0);
    let row = next_row(prev, r, parents);
    if x < t.len() {
        let t1 = t.update(x, node_over(t[x], parents));
        assert(t1[q] == t[q]);
        lemma_converge_upto_parents(t1, r, x + 1, t.len() as int);
        assert(row[q].parent == Some(p));
    } else {
        assert(row[q].parent == Some(p));
    }
}

proof fn lemma_count_positive(row: Seq<CellView>, kind: Track, b: int)
    requires
        0 <= b < row.len(),
        row[b].track == kind,
    ensures
        kind_count(row, kind) >= 1,
    decreases row.len(),
{
    if b < row.len() - 1 {
        lemma_count_positive(row.drop_last(), kind, b);
    }
}

/// Where two open columns of a row wait for the same commit `r`, the row of
/// `r` below it has its one `Node` cell and at least one `Branch` cell.
pub proof fn converging_columns_branch(
    prev: Seq<CellView>,
    r: Seq<char>,
    parents: Seq<Seq<char>>,
    j1: int,
    j2: int,
)
    requires
        0 <= j1 < j2 < prev.len(),
        prev[j1].parent == Some(r),
        prev[j2].parent == Some(r),
    ensures
        kind_count(next_row(prev, r, parents), Track::Node) == 1,
        kind_count(next_row(prev, r, parents), Track::Branch) >= 1,
        exists|b: int|
            0 <= b < next_row(prev, r, parents).len() && (#[trigger] next_row(
                prev,
                r,
                parents,
            )[b]).track == Track::Branch,
{
    let row = next_row(prev, r, parents);
    let m = merge_cells(parents).len() as int;
    lemma_row_shape(prev, r, parents);
    let nx = choose|x: int|
        0 <= x < row.len() - m && #[trigger] row[x].track == Track::Node && forall|j: int|
            0 <= j < row.len() && j != x ==> row[j].track != Track::Node;
    lemma_count_range(row, Track::Node, nx, nx + 1);
    let open = live(prev);
    lemma_live_two(prev, j1, j2);
    let (i1, i2) = choose|i1: int, i2: int|
        0 <= i1 < i2 < open.len() && #[trigger] open[i1] == prev[j1] && #[trigger] open[i2]
            == prev[j2];
    lemma_carry_prefix(prev, open, i1, open.len() as int);
    lemma_carry_prefix(prev, open, i2, open.len() as int);
    lemma_carry_prefix(prev, open, i1 + 1, i2);
    lemma_carry_prefix(prev, open, i1, i1 + 1);
    let t = carried(prev);
    let q1 = carry_upto(prev, open, i1).len() as int;
    let q2 = carry_upto(prev, open, i2).len() as int;
    assert(q1 < q2);
    assert(t[q1].parent == Some(r));
    assert(t[q2].parent == Some(r));
    let x = first_waiting_from(t, Some(r), 0);
    lemma_first_waiting(t, Some(r), 0);
    assert(x <= q1);
    let t1 = t.update(x, node_over(t[x], parents));
    assert(t1[q2] == t[q2]);
    lemma_converge_upto_branch(t1, r, x + 1, t.len() as int, q2);
    let body = converge_upto(t1, r, x + 1, t.len() as int);
    let b = choose|b: int| 0 <= b < t1.len() && (#[trigger] body[b]).track == Track::Branch;
    lemma_converge_upto_parents(t1, r, x + 1, t.len() as int);
    assert(row[b] == body[b]);
    lemma_count_positive(row, Track::Branch, b);
    assert(row[b].track == Track::Branch);
}

proof fn lemma_linear_row(cs: Seq<(Seq<char>, Seq<Seq<char>>)>, k: int)
    requires
        0 <= k < cs.len(),
        forall|i: int| 0 <= i < cs.len() - 1 ==> #[trigger] cs[i].1 == seq![cs[i + 1].0],
        cs[cs.len() - 1].1.len() <= 1,
    ensures
        layout(cs)[k].len() == 1,
        layout(cs)[k][0].track == Track::Node,
        layout(cs)[k][0].parent == first_parent(cs[k].1),
    decreases k,
{
    reveal(Seq::filter);
    lemma_layout_row(cs, k);
    let r = cs[k].0;
    let parents = cs[k].1;
    assert(parents.len() <= 1);
    assert(merge_cells(parents) =~= Seq::<CellView>::empty());
    if k == 0 {
        let prev = Seq::<CellView>::empty();
        assert(live(prev) =~= Seq::<CellView>::empty());
        assert(carried(prev) =~= Seq::<CellView>::empty());
    } else {
        lemma_linear_row(cs, k - 1);
        let prev = layout(cs)[k - 1];
        assert(prev.drop_last() =~= Seq::<CellView>::empty());
        assert(live(prev.drop_last()) =~= Seq::<CellView>::empty());
        assert(live(prev) =~= prev);
        assert(carry_upto(prev, live(prev), 0) =~= Seq::<CellView>::empty());
        let t = carried(prev);
        assert(t =~= seq![cell(prev[0].parent, prev[0].related, Track::Continue)]);
        assert(first_waiting_from(t, Some(r), 0) == 0);
    }
}

/// In a linear history, where each commit's one parent is the next commit
/// (and the last commit has at most one parent), every row is one `Node`
/// cell.
pub proof fn linear_history_is_one_column(cs: Seq<(Seq<char>, Seq<Seq<char>>)>)
    requires
        forall|i: int| 0 <= i < cs.len() - 1 ==> #[trigger] cs[i].1 == seq![cs[i + 1].0],
        cs.len() > 0 ==> cs[cs.len() - 1].1.len() <= 1,
    ensures
        forall|k: int|
            0 <= k < cs.len() ==> (#[trigger] layout(cs)[k]).len() == 1 && layout(cs)[k][0].track
                == Track::Node,
{
    assert forall|k: int| 0 <= k < cs.len() implies (#[trigger] layout(cs)[k]).len() == 1
        && layout(cs)[k][0].track == Track::Node by {
        lemma_linear_row(cs, k);
    }
}

proof fn lemma_converge_upto_branches(t: Seq<CellView>, r: Seq<char>, lo: int, hi: int)
    requires
        0 <= lo <= hi <= t.len(),
        forall|j: int| 0 <= j < t.len() ==> #[trigger] t[j].track != Track::Branch,
    ensures
        forall|j: int|
            0 <= j < t.len() && (#[trigger] converge_upto(t, r, lo, hi)[j]).track
                == Track::Branch ==> j >= lo && converge_upto(t, r, lo, hi)[j].related == r,
    decreases hi - lo,
{
    if hi > lo {
        lemma_converge_upto_branches(t, r, lo, hi - 1);
        lemma_converge_upto_parents(t, r, lo, hi - 1);
        lemma_converge_at(converge_upto(t, r, lo, hi - 1), r, hi - 1);
    }
}

/// The `Branch` cells of the row of commit `r` are drawn for `r`, and none
/// is the first cell of the row.
pub proof fn lemma_branch_cells(prev: Seq<CellView>, r: Seq<char>, parents: Seq<Seq<char>>)
    ensures
        forall|j: int|
            0 <= j < next_row(prev, r, parents).len() && (#[trigger] next_row(
                prev,
                r,
                parents,
            )[j]).track == Track::Branch ==> j >= 1 && next_row(prev, r, parents)[j].related
                == r,
{
    let t = carried(prev);
    lemma_carry_upto_kinds(prev, live(prev), live(prev).len() as int);
    let x = first_waiting_from(t, Some(r), 0);
    lemma_first_waiting(t, Some(r), 0);
    let ms = merge_cells(parents);
    let row = next_row(prev, r, parents);
    if x < t.len() {
        let t1 = t.update(x, node_over(t[x], parents));
        assert forall|j: int| 0 <= j < t1.len() implies #[trigger] t1[j].track
            != Track::Branch by {
            assert(carried_kind(t[j]));
        }
        lemma_converge_upto_branches(t1, r, x + 1, t.len() as int);
        lemma_converge_upto_parents(t1, r, x + 1, t.len() as int);
        let body = converge_upto(t1, r, x + 1, t.len() as int);
        assert forall|j: int| 0 <= j < row.len() && (#[trigger] row[j]).track == Track::Branch implies j
            >= 1 && row[j].related == r by {
            if j >= body.len() {
                assert(row[j] == ms[j - body.len()]);
            } else {
                assert(row[j] == body[j]);
            }
        }
    } else {
        let body = t.push(fresh_node(r, parents));
        assert forall|j: int| 0 <= j < row.len() && (#[trigger] row[j]).track == Track::Branch implies j
            >= 1 && row[j].related == r by {
            if j >= body.len() {
                assert(row[j] == ms[j - body.len()]);
            } else {
                assert(row[j] == body[j]);
                if j < t.len() {
                    assert(carried_kind(t[j]));
                }
            }
        }
    }
}

/// The row of a commit with two parents has one `Node` cell and one `Merge`
/// cell; the row of the next commit has a column for the second parent:
/// one that waits for it, or the node of that parent itself.
pub proof fn merge_opens_column(cs: Seq<(Seq<char>, Seq<Seq<char>>)>, k: int)
    requires
        0 <= k < cs.len(),
        cs[k].1.len() == 2,
    ensures
        kind_count(layout(cs)[k], Track::Node) == 1,
        kind_count(layout(cs)[k], Track::Merge) == 1,
        k + 1 < cs.len() ==> exists|i: int|
            0 <= i < layout(cs)[k + 1].len() && ((#[trigger] layout(cs)[k + 1][i]).parent
                == Some(cs[k].1[1]) || (cs[k + 1].0 == cs[k].1[1] && layout(cs)[k + 1][i].track
                == Track::Node)),
{
    layout_node_and_merge_counts(cs, k);
    if k + 1 < cs.len() {
        let p = cs[k].1[1];
        let row = layout(cs)[k];
        lemma_layout_row(cs, k);
        lemma_layout_row(cs, k + 1);
        lemma_row_shape(row_above(layout(cs), k), cs[k].0, cs[k].1);
        let ms = merge_cells(cs[k].1);
        assert(row.subrange(row.len() - 1, row.len() as int)[0] == ms[0]);
        assert(row[row.len() - 1].parent == Some(p));
        let next = layout(cs)[k + 1];
        if cs[k + 1].0 != p {
            open_column_stays_open(row, cs[k + 1].0, cs[k + 1].1, row.len() - 1, p);
        } else {
            let m2 = merge_cells(cs[k + 1].1).len() as int;
            lemma_row_shape(row, cs[k + 1].0, cs[k + 1].1);
            let x = choose|x: int|
                0 <= x < next.len() - m2 && #[trigger] next[x].track == Track::Node && forall|
                    j: int,
                | 0 <= j < next.len() && j != x ==> next[j].track != Track::Node;
            assert(next[x].track == Track::Node);
        }
    }
}

proof fn lemma_converge_upto_corners(t: Seq<CellView>, r: Seq<char>, lo: int, hi: int)
    requires
        0 <= lo <= hi <= t.len(),
    ensures
        forall|j: int|
            0 <= j < t.len() && (#[trigger] converge_upto(t, r, lo, hi)[j]).track
                == Track::ContinueUp ==> converge_upto(t, r, lo, hi)[j] == t[j],
    decreases hi - lo,
{
    if hi > lo {
        lemma_converge_upto_corners(t, r, lo, hi - 1);
        lemma_converge_upto_parents(t, r, lo, hi - 1);
        let t2 = converge_upto(t, r, lo, hi - 1);
        lemma_converge_at(t2, r, hi - 1);
        assert forall|j: int|
            0 <= j < t.len() && (#[trigger] converge_at(t2, r, hi - 1)[j]).track
                == Track::ContinueUp implies converge_at(t2, r, hi - 1)[j] == t[j] by {
            assert(converge_at(t2, r, hi - 1)[j] == t2[j] || converge_at(t2, r, hi - 1)[j].track
                == Track::Branch || converge_at(t2, r, hi - 1)[j].track == Track::ContinueRight);
        }
    }
}

/// The corner that ends a leftward run waits for no commit, so the next row
/// drops it.
pub proof fn run_corners_are_dropped(prev: Seq<CellView>, r: Seq<char>, parents: Seq<Seq<char>>)
    ensures
        forall|j: int|
            0 <= j < next_row(prev, r, parents).len() && (#[trigger] next_row(
                prev,
                r,
                parents,
            )[j]).track == Track::ContinueUp ==> next_row(prev, r, parents)[j].parent is None,
{
    let t = carried(prev);
    lemma_carry_upto_kinds(prev, live(prev), live(prev).len() as int);
    let x = first_waiting_from(t, Some(r), 0);
    lemma_first_waiting(t, Some(r), 0);
    let ms = merge_cells(parents);
    let row = next_row(prev, r, parents);
    if x < t.len() {
        let t1 = t.update(x, node_over(t[x], parents));
        lemma_converge_upto_corners(t1, r, x + 1, t.len() as int);
        lemma_converge_upto_parents(t1, r, x + 1, t.len() as int);
        let body = converge_upto(t1, r, x + 1, t.len() as int);
        assert forall|j: int|
            0 <= j < row.len() && (#[trigger] row[j]).track == Track::ContinueUp implies row[j].parent
                is None by {
            if j >= body.len() {
                assert(row[j] == ms[j - body.len()]);
            } else {
                assert(row[j] == body[j]);
                assert(body[j] == t1[j]);
                if j != x {
                    assert(carried_kind(t[j]));
                }
            }
        }
    } else {
        let body = t.push(fresh_node(r, parents));
        assert forall|j: int|
            0 <= j < row.len() && (#[trigger] row[j]).track == Track::ContinueUp implies row[j].parent
                is None by {
            if j >= body.len() {
                assert(row[j] == ms[j - body.len()]);
            } else if j < t.len() {
                assert(row[j] == t[j]);
                assert(carried_kind(t[j]));
            }
        }
    }
}

/// Laying out two lists of commits with the same identifiers and parents
/// gives equal graphs, cell by cell: the layout reads nothing else of the
/// commits and keeps no state between calls.
pub proof fn layout_is_deterministic(a: Seq<Commit>, b: Seq<Commit>)
    requires
        commit_keys(a) == commit_keys(b),
    ensures
        layout(commit_keys(a)) == layout(commit_keys(b)),
{
}

} // verus!
