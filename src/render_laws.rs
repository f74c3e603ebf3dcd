//! What holds of the glyphs that draw the rows of a laid-out graph.
use vstd::prelude::*;
use crate::graph::{layout, merge_cells, next_row, CellView, Track};
use crate::graph_laws::{
    converging_columns_branch, kind_count, lemma_branch_cells, lemma_layout_row, lemma_row_shape,
    row_above,
};
use crate::render::{
    col_marks, first_marks, glyph_of, key_index, lemma_with_marks_keeps, marks, marks_upto,
    more_of_run, with_key, with_marks, Mark, Symbol,
};

verus! {

/// The number of marks of `ms` with the symbol `s`.
pub open spec fn symbol_count(ms: Seq<Mark>, s: Symbol) -> nat
    decreases ms.len(),
{
    if ms.len() == 0 {
        0
    } else {
        symbol_count(ms.drop_last(), s) + if ms.last().0 == s {
            1nat
        } else {
            0nat
        }
    }
}

/// The symbols that end a column: tees and corners.
pub open spec fn is_end_symbol(s: Symbol) -> bool {
    s == Symbol::TeeDown || s == Symbol::RightDown || s == Symbol::TeeUp || s == Symbol::RightUp
}

/// The tee or corner that column `c > 0` of `row` ends in, if any.
pub open spec fn col_end(row: Seq<CellView>, c: int) -> Option<Symbol> {
    match row[c].track {
        Track::ContinueUp => Some(Symbol::RightUp),
        Track::Branch => Some(
            if more_of_run(row, c) {
                Symbol::TeeUp
            } else {
                Symbol::RightUp
            },
        ),
        Track::Merge => Some(
            if more_of_run(row, c) {
                Symbol::TeeDown
            } else {
                Symbol::RightDown
            },
        ),
        _ => None,
    }
}

/// The number of columns in `[1, hi)` that end in `s`.
pub open spec fn end_count(row: Seq<CellView>, hi: int, s: Symbol) -> nat
    decreases hi,
{
    if hi <= 1 {
        0
    } else {
        end_count(row, hi - 1, s) + if col_end(row, hi - 1) == Some(s) {
            1nat
        } else {
            0nat
        }
    }
}

proof fn lemma_symbol_count_concat(a: Seq<Mark>, b: Seq<Mark>, s: Symbol)
    ensures
        symbol_count(a + b, s) == symbol_count(a, s) + symbol_count(b, s),
    decreases b.len(),
{
    if b.len() == 0 {
        assert(a + b =~= a);
    } else {
        assert((a + b).drop_last() =~= a + b.drop_last());
        lemma_symbol_count_concat(a, b.drop_last(), s);
    }
}

proof fn lemma_symbol_count_one(m: Mark, s: Symbol)
    ensures
        symbol_count(seq![m], s) == if m.0 == s {
            1nat
        } else {
            0nat
        },
{
    assert(seq![m].drop_last() =~= Seq::<Mark>::empty());
    assert(symbol_count(seq![m].drop_last(), s) == 0);
}

proof fn lemma_symbol_count_two(m1: Mark, m2: Mark, s: Symbol)
    ensures
        symbol_count(seq![m1, m2], s) == symbol_count(seq![m1], s) + symbol_count(seq![m2], s),
{
    assert(seq![m1, m2] =~= seq![m1] + seq![m2]);
    lemma_symbol_count_concat(seq![m1], seq![m2], s);
}

proof fn lemma_col_count(row: Seq<CellView>, c: int, h: Option<Seq<char>>, s: Symbol)
    requires
        1 <= c < row.len(),
        is_end_symbol(s),
    ensures
        symbol_count(col_marks(row, c, h), s) == if col_end(row, c) == Some(s) {
            1nat
        } else {
            0nat
        },
{
    let cm = col_marks(row, c, h);
    assert(symbol_count(Seq::<Mark>::empty(), s) == 0);
    match row[c].track {
        Track::Continue => {
            let head: Seq<Mark> = match h {
                Some(hr) => seq![(crate::render::lead(row[c - 1].track), Some(hr))],
                None => if crate::render::spaced(row[c - 1].track) {
                    seq![(Symbol::Space, None)]
                } else {
                    Seq::empty()
                },
            };
            assert(cm == head + seq![(Symbol::VLine, Some(row[c].related))]);
            lemma_symbol_count_concat(head, seq![(Symbol::VLine, Some(row[c].related))], s);
            lemma_symbol_count_one((Symbol::VLine, Some(row[c].related)), s);
            match h {
                Some(hr) => lemma_symbol_count_one(
                    (crate::render::lead(row[c - 1].track), Some(hr)),
                    s,
                ),
                None => lemma_symbol_count_one((Symbol::Space, None), s),
            }
        },
        Track::Node => {
            let head: Seq<Mark> = if crate::render::spaced(row[c - 1].track) {
                seq![(Symbol::Space, None)]
            } else {
                Seq::empty()
            };
            let tail: Seq<Mark> = seq![(crate::render::bullet(row, c + 1), None)];
            assert(cm == head + tail);
            lemma_symbol_count_concat(head, tail, s);
            lemma_symbol_count_one((Symbol::Space, None), s);
            lemma_symbol_count_one((crate::render::bullet(row, c + 1), None), s);
        },
        _ => {
            assert(cm.len() == 2);
            assert(cm =~= seq![cm[0], cm[1]]);
            lemma_symbol_count_two(cm[0], cm[1], s);
            lemma_symbol_count_one(cm[0], s);
            lemma_symbol_count_one(cm[1], s);
        },
    }
}

proof fn lemma_marks_count(row: Seq<CellView>, i: int, s: Symbol)
    requires
        1 <= i <= row.len(),
        is_end_symbol(s),
    ensures
        symbol_count(marks_upto(row, i).0, s) == end_count(row, i, s),
    decreases i,
{
    if i <= 1 {
        let fm = first_marks(row);
        assert(symbol_count(Seq::<Mark>::empty(), s) == 0);
        if row[0].track == Track::Continue {
            lemma_symbol_count_one((Symbol::VLine, Some(row[0].related)), s);
        } else if row[0].track == Track::Node {
            lemma_symbol_count_one((crate::render::bullet(row, 0), None), s);
        }
    } else {
        lemma_marks_count(row, i - 1, s);
        let (ms, h) = marks_upto(row, i - 1);
        lemma_symbol_count_concat(ms, col_marks(row, i - 1, h), s);
        lemma_col_count(row, i - 1, h, s);
    }
}

proof fn lemma_end_count_range(row: Seq<CellView>, s: Symbol, lo: int, hi: int, n: int)
    requires
        1 <= lo <= hi <= n,
        forall|c: int| 1 <= c < n ==> (#[trigger] col_end(row, c) == Some(s) <==> lo <= c < hi),
    ensures
        end_count(row, n, s) == hi - lo,
    decreases n,
{
    if n > 1 {
        if hi == n && lo < hi {
            lemma_end_count_range(row, s, lo, hi - 1, n - 1);
        } else {
            let h2 = if hi > n - 1 {
                n - 1
            } else {
                hi
            };
            let l2 = if lo > h2 {
                h2
            } else {
                lo
            };
            lemma_end_count_range(row, s, l2, h2, n - 1);
        }
    }
}

/// The row of a commit with three parents, the last two equal, draws one
/// tee-down and one down-corner: the two `Merge` cells form one run.
pub proof fn octopus_merge_glyphs(cs: Seq<(Seq<char>, Seq<Seq<char>>)>, k: int)
    requires
        0 <= k < cs.len(),
        cs[k].1.len() == 3,
        cs[k].1[1] == cs[k].1[2],
    ensures
        kind_count(layout(cs)[k], Track::Node) == 1,
        kind_count(layout(cs)[k], Track::Merge) == 2,
        symbol_count(marks(layout(cs)[k]), Symbol::TeeDown) == 1,
        symbol_count(marks(layout(cs)[k]), Symbol::RightDown) == 1,
{
    crate::graph_laws::layout_node_and_merge_counts(cs, k);
    lemma_layout_row(cs, k);
    let row = layout(cs)[k];
    let parents = cs[k].1;
    let ms = merge_cells(parents);
    lemma_row_shape(row_above(layout(cs), k), cs[k].0, parents);
    let n = row.len() as int;
    let x = choose|x: int|
        0 <= x < row.len() - 2 && #[trigger] row[x].track == Track::Node && forall|j: int|
            0 <= j < row.len() && j != x ==> row[j].track != Track::Node;
    assert(row[x].track == Track::Node);
    assert(row.subrange(n - 2, n)[0] == ms[0]);
    assert(row.subrange(n - 2, n)[1] == ms[1]);
    assert(row[n - 2] == ms[0] && row[n - 1] == ms[1]);
    assert(more_of_run(row, n - 2));
    assert forall|c: int| 1 <= c < n implies (#[trigger] col_end(row, c) == Some(Symbol::TeeDown)
        <==> n - 2 <= c < n - 1) && (col_end(row, c) == Some(Symbol::RightDown) <==> n - 1 <= c
        < n) by {
        if c == n - 1 {
            assert(!more_of_run(row, c));
        }
    }
    lemma_end_count_range(row, Symbol::TeeDown, n - 2, n - 1, n);
    lemma_end_count_range(row, Symbol::RightDown, n - 1, n, n);
    lemma_marks_count(row, n, Symbol::TeeDown);
    lemma_marks_count(row, n, Symbol::RightDown);
}

/// The last index below `hi` of a `Branch` cell, or -1.
pub open spec fn last_branch(row: Seq<CellView>, hi: int) -> int
    decreases hi,
{
    if hi <= 0 {
        -1
    } else if row[hi - 1].track == Track::Branch {
        hi - 1
    } else {
        last_branch(row, hi - 1)
    }
}

proof fn lemma_last_branch(row: Seq<CellView>, hi: int, b: int)
    requires
        0 <= b < hi <= row.len(),
        row[b].track == Track::Branch,
    ensures
        b <= last_branch(row, hi) < hi,
        row[last_branch(row, hi)].track == Track::Branch,
        forall|j: int| last_branch(row, hi) < j < hi ==> #[trigger] row[j].track != Track::Branch,
    decreases hi,
{
    if row[hi - 1].track != Track::Branch {
        lemma_last_branch(row, hi - 1, b);
    }
}

/// Where two open columns of a row wait for the same commit `r`, and no
/// column of the row of `r` ends a leftward run, the row of `r` has its one
/// `Node` cell, at least one `Branch` cell, and draws exactly one up-corner.
pub proof fn converging_columns_one_corner(cs: Seq<(Seq<char>, Seq<Seq<char>>)>, k: int, j1: int, j2: int)
    requires
        0 < k < cs.len(),
        0 <= j1 < j2 < layout(cs)[k - 1].len(),
        layout(cs)[k - 1][j1].parent == Some(cs[k].0),
        layout(cs)[k - 1][j2].parent == Some(cs[k].0),
        forall|c: int|
            0 <= c < layout(cs)[k].len() ==> #[trigger] layout(cs)[k][c].track
                != Track::ContinueUp,
    ensures
        kind_count(layout(cs)[k], Track::Node) == 1,
        kind_count(layout(cs)[k], Track::Branch) >= 1,
        symbol_count(marks(layout(cs)[k]), Symbol::RightUp) == 1,
{
    lemma_layout_row(cs, k);
    let prev = layout(cs)[k - 1];
    let r = cs[k].0;
    let row = layout(cs)[k];
    assert(row_above(layout(cs), k) == prev);
    converging_columns_branch(prev, r, cs[k].1, j1, j2);
    lemma_branch_cells(prev, r, cs[k].1);
    let n = row.len() as int;
    let b = choose|b: int| 0 <= b < n && (#[trigger] row[b]).track == Track::Branch;
    lemma_last_branch(row, n, b);
    let lb = last_branch(row, n);
    assert(lb >= 1);
    assert forall|c: int| 1 <= c < n implies (#[trigger] col_end(row, c) == Some(Symbol::RightUp)
        <==> lb <= c < lb + 1) by {
        if row[c].track == Track::Branch {
            if c < lb {
                assert(row[lb].related == row[c].related);
                assert(more_of_run(row, c));
            } else {
                assert(!more_of_run(row, c));
            }
        }
    }
    lemma_end_count_range(row, Symbol::RightUp, lb, lb + 1, n);
    lemma_marks_count(row, n, Symbol::RightUp);
}

/// Colour stability: a commit drawn in one row and again in a later row,
/// with the same colour map in between, gets the same colour both times.
pub proof fn colors_are_stable(
    keys: Seq<Seq<char>>,
    row_a: Seq<CellView>,
    between: Seq<Mark>,
    row_b: Seq<CellView>,
    i: int,
    j: int,
)
    requires
        0 <= i < marks(row_a).len(),
        0 <= j < marks(row_b).len(),
        marks(row_a)[i].1 is Some,
        marks(row_b)[j].1 == marks(row_a)[i].1,
    ensures
        glyph_of(marks(row_a)[i], with_marks(keys, marks(row_a))).color == glyph_of(
            marks(row_b)[j],
            with_marks(with_marks(with_marks(keys, marks(row_a)), between), marks(row_b)),
        ).color,
{
    let k = marks(row_a)[i].1->0;
    let k1 = with_marks(keys, marks(row_a));
    crate::render::lemma_with_marks_has(keys, marks(row_a), i, k);
    lemma_with_marks_keeps(k1, between, k);
    lemma_with_marks_keeps(with_marks(k1, between), marks(row_b), k);
}

} // verus!
