//! The column layout of a commit graph.
//!
//! Commits come newest first, each before its parents. One row of cells is
//! made per commit; each cell is one open column of the drawing and says which
//! commit the column waits for and how it joins the row below.
use vstd::prelude::*;
use crate::commit::{commit_keys, ref_views, Commit};
use crate::refs::GitRef;

verus! {

/// How a cell joins the rows around it.
#[derive(Debug, Clone, Copy, PartialEq, Eq, Structural)]
pub enum Track {
    /// The commit that owns the row.
    Node,
    /// A column that goes on straight down.
    Continue,
    /// A horizontal run that carries a column leftwards for one row.
    ContinueRight,
    /// The corner where such a run leaves the column it came from.
    ContinueUp,
    /// A column that ends here because it reaches the row's commit.
    Branch,
    /// A column opened for a second or later parent of the row's commit.
    Merge,
}

/// One column of one row.
#[derive(Debug)]
pub struct CommitCell {
    /// The commit this column waits for; `None` for a cell drawn in this row
    /// only.
    pub parent: Option<GitRef>,
    /// The commit the cell is drawn for, which picks its colour.
    pub related: GitRef,
    /// How the cell joins the rows around it.
    pub track: Track,
}

/// One row of the graph: the cells of the open columns, left to right.
#[derive(Debug)]
pub struct CommitRow {
    pub tracks: Vec<CommitCell>,
}

/// The graph: one row per commit, in the order of the commits.
#[derive(Debug)]
pub struct CommitGraph {
    pub graph: Vec<CommitRow>,
}

/// A cell as a value of identifiers.
pub struct CellView {
    pub parent: Option<Seq<char>>,
    pub related: Seq<char>,
    pub track: Track,
}

pub open spec fn opt_view(o: Option<GitRef>) -> Option<Seq<char>> {
    match o {
        Some(g) => Some(g@),
        None => None,
    }
}

impl View for CommitCell {
    type V = CellView;

    open spec fn view(&self) -> CellView {
        CellView { parent: opt_view(self.parent), related: self.related@, track: self.track }
    }
}

pub open spec fn cells_view(s: Seq<CommitCell>) -> Seq<CellView> {
    s.map_values(|c: CommitCell| c@)
}

impl View for CommitRow {
    type V = Seq<CellView>;

    open spec fn view(&self) -> Seq<CellView> {
        cells_view(self.tracks@)
    }
}

impl View for CommitGraph {
    type V = Seq<Seq<CellView>>;

    open spec fn view(&self) -> Seq<Seq<CellView>> {
        self.graph@.map_values(|r: CommitRow| r@)
    }
}

pub open spec fn cell(parent: Option<Seq<char>>, related: Seq<char>, track: Track) -> CellView {
    CellView { parent, related, track }
}

/// The cells of a row that stay open for the next row.
pub open spec fn live(row: Seq<CellView>) -> Seq<CellView> {
    row.filter(|c: CellView| c.parent is Some)
}

/// The same column, going on straight down.
pub open spec fn continued(c: CellView) -> CellView {
    cell(c.parent, c.related, Track::Continue)
}

/// The first index from `start` on whose cell waits for `p` (which is not
/// `None`), or the length of the row when there is none.
pub open spec fn first_waiting_from(row: Seq<CellView>, p: Option<Seq<char>>, start: int) -> int
    decreases row.len() - start,
{
    if start < 0 || start >= row.len() {
        row.len() as int
    } else if row[start].parent is Some && row[start].parent == p {
        start
    } else {
        first_waiting_from(row, p, start + 1)
    }
}

/// The first index from `start` on whose cell is a `ContinueUp`, or the
/// length of the row when there is none.
pub open spec fn first_corner_from(row: Seq<CellView>, start: int) -> int
    decreases row.len() - start,
{
    if start < 0 || start >= row.len() {
        row.len() as int
    } else if row[start].track == Track::ContinueUp {
        start
    } else {
        first_corner_from(row, start + 1)
    }
}

/// The cells that carry the open column `c` into the new row, when the new
/// row already holds `at` cells and `prev` is the row above.
///
/// Where the row above has a column waiting for the same commit at the same
/// index, the column goes on. Where that column stands further right, at
/// index `x`, a run of `ContinueRight` cells ending in a `ContinueUp` at `x`
/// draws it moving left.
pub open spec fn carry(prev: Seq<CellView>, c: CellView, at: int) -> Seq<CellView> {
    if 0 <= at < prev.len() && prev[at].parent == c.parent {
        seq![continued(prev[at])]
    } else {
        let x = first_waiting_from(prev, c.parent, at);
        if 0 <= at && x < prev.len() {
            let p = c.parent->0;
            seq![cell(c.parent, p, Track::ContinueRight)] + Seq::new(
                (x - at - 1) as nat,
                |_k: int| cell(None, p, Track::ContinueRight),
            ) + seq![cell(None, p, Track::ContinueUp)]
        } else {
            seq![continued(c)]
        }
    }
}

/// The new row after carrying the first `i` open columns of `open`.
pub open spec fn carry_upto(prev: Seq<CellView>, open: Seq<CellView>, i: int) -> Seq<CellView>
    decreases i,
{
    if i <= 0 {
        Seq::empty()
    } else {
        let acc = carry_upto(prev, open, i - 1);
        acc + carry(prev, open[i - 1], acc.len() as int)
    }
}

/// The open columns of the row above, carried into the new row.
pub open spec fn carried(prev: Seq<CellView>) -> Seq<CellView> {
    carry_upto(prev, live(prev), live(prev).len() as int)
}

pub open spec fn first_parent(parents: Seq<Seq<char>>) -> Option<Seq<char>> {
    if parents.len() > 0 {
        Some(parents[0])
    } else {
        None
    }
}

/// The commit's cell, put where a column waited for it.
pub open spec fn node_over(c: CellView, parents: Seq<Seq<char>>) -> CellView {
    cell(
        first_parent(parents),
        if parents.len() > 0 {
            parents[0]
        } else {
            c.related
        },
        Track::Node,
    )
}

/// The commit's cell in a new column, where no column waited for it.
pub open spec fn fresh_node(r: Seq<char>, parents: Seq<Seq<char>>) -> CellView {
    cell(
        first_parent(parents),
        if parents.len() > 0 {
            parents[0]
        } else {
            r
        },
        Track::Node,
    )
}

/// One new column for each parent after the first, in order.
pub open spec fn merge_cells(parents: Seq<Seq<char>>) -> Seq<CellView> {
    if parents.len() <= 1 {
        Seq::empty()
    } else {
        Seq::new(
            (parents.len() - 1) as nat,
            |k: int| cell(Some(parents[k + 1]), parents[k + 1], Track::Merge),
        )
    }
}

/// Column `y` also waits for commit `r`, which is placed further left: the
/// column ends. A plain column becomes a `Branch`; a column that is the start
/// of a leftward run hands the `Branch` to the corner that ends the run.
pub open spec fn converge_at(t: Seq<CellView>, r: Seq<char>, y: int) -> Seq<CellView> {
    if 0 <= y < t.len() && t[y].parent == Some(r) {
        if t[y].track == Track::ContinueRight {
            let t1 = t.update(y, cell(None, r, Track::ContinueRight));
            let u = first_corner_from(t1, y + 1);
            if u < t1.len() {
                t1.update(u, cell(t1[u].parent, r, Track::Branch))
            } else {
                t1.update(y, cell(None, r, Track::Branch))
            }
        } else {
            t.update(y, cell(None, r, Track::Branch))
        }
    } else {
        t
    }
}

/// `converge_at` for each index in `[lo, hi)`, in order.
pub open spec fn converge_upto(t: Seq<CellView>, r: Seq<char>, lo: int, hi: int) -> Seq<
    CellView,
>
    decreases hi - lo,
{
    if hi <= lo {
        t
    } else {
        converge_at(converge_upto(t, r, lo, hi - 1), r, hi - 1)
    }
}

/// The row of commit `r` with `parents`, from the carried columns `t`.
pub open spec fn place(t: Seq<CellView>, r: Seq<char>, parents: Seq<Seq<char>>) -> Seq<CellView> {
    let x = first_waiting_from(t, Some(r), 0);
    let body = if x < t.len() {
        converge_upto(t.update(x, node_over(t[x], parents)), r, x + 1, t.len() as int)
    } else {
        t.push(fresh_node(r, parents))
    };
    body + merge_cells(parents)
}

/// The row of commit `r` with `parents`, below the row `prev`.
pub open spec fn next_row(prev: Seq<CellView>, r: Seq<char>, parents: Seq<Seq<char>>) -> Seq<
    CellView,
> {
    place(carried(prev), r, parents)
}

/// The last row of `rows`, or an empty row.
pub open spec fn last_row(rows: Seq<Seq<CellView>>) -> Seq<CellView> {
    if rows.len() == 0 {
        Seq::empty()
    } else {
        rows.last()
    }
}

/// The rows of the first `n` commits.
pub open spec fn layout_upto(cs: Seq<(Seq<char>, Seq<Seq<char>>)>, n: int) -> Seq<Seq<CellView>>
    decreases n,
{
    if n <= 0 {
        Seq::empty()
    } else {
        let rows = layout_upto(cs, n - 1);
        rows.push(next_row(last_row(rows), cs[n - 1].0, cs[n - 1].1))
    }
}

/// The graph of a list of commits, each given by its identifier and its
/// parents.
pub open spec fn layout(cs: Seq<(Seq<char>, Seq<Seq<char>>)>) -> Seq<Seq<CellView>> {
    layout_upto(cs, cs.len() as int)
}

pub proof fn lemma_first_waiting(row: Seq<CellView>, p: Option<Seq<char>>, start: int)
    requires
        0 <= start,
    ensures
        start <= first_waiting_from(row, p, start) <= row.len() || (start > row.len()
            && first_waiting_from(row, p, start) == row.len()),
        first_waiting_from(row, p, start) < row.len() ==> row[first_waiting_from(
            row,
            p,
            start,
        )].parent is Some && row[first_waiting_from(row, p, start)].parent == p,
        forall|j: int|
            start <= j < first_waiting_from(row, p, start) ==> !(row[j].parent is Some
                && row[j].parent == p),
    decreases row.len() - start,
{
    if start < row.len() && !(row[start].parent is Some && row[start].parent == p) {
        lemma_first_waiting(row, p, start + 1);
    }
}

pub proof fn lemma_first_corner(row: Seq<CellView>, start: int)
    requires
        0 <= start,
    ensures
        first_corner_from(row, start) <= row.len(),
        first_corner_from(row, start) < row.len() ==> start <= first_corner_from(row, start)
            && row[first_corner_from(row, start)].track == Track::ContinueUp,
    decreases row.len() - start,
{
    if start < row.len() && row[start].track != Track::ContinueUp {
        lemma_first_corner(row, start + 1);
    }
}

proof fn lemma_cells_push(s: Seq<CommitCell>, c: CommitCell)
    ensures
        cells_view(s.push(c)) == cells_view(s).push(c@),
{
    assert(cells_view(s.push(c)) =~= cells_view(s).push(c@));
}

fn clone_opt(o: &Option<GitRef>) -> (r: Option<GitRef>)
    ensures
        r == *o,
{
    match o {
        Some(g) => Some(g.clone()),
        None => None,
    }
}

fn same_opt(a: &Option<GitRef>, b: &Option<GitRef>) -> (r: bool)
    ensures
        r == (opt_view(*a) == opt_view(*b)),
{
    match (a, b) {
        (Some(x), Some(y)) => x == y,
        (None, None) => true,
        _ => false,
    }
}

impl CommitCell {
    /// A cell waiting for `parent`, drawn for `related`.
    pub fn new(parent: Option<&GitRef>, related: GitRef, track: Track) -> (r: CommitCell)
        ensures
            r@ == cell(
                match parent {
                    Some(p) => Some(p@),
                    None => None,
                },
                related@,
                track,
            ),
    {
        let parent = match parent {
            Some(p) => Some(p.clone()),
            None => None,
        };
        CommitCell { parent, related, track }
    }

    /// Whether this column waits for the commit `r`.
    fn waits_for(&self, r: &GitRef) -> (b: bool)
        ensures
            b == (self@.parent == Some(r@)),
    {
        match &self.parent {
            Some(p) => *p == *r,
            None => false,
        }
    }
}

impl Clone for CommitCell {
    fn clone(&self) -> (r: CommitCell)
        ensures
            r == *self,
    {
        CommitCell { parent: clone_opt(&self.parent), related: self.related.clone(), track: self.track }
    }
}

fn copy_cells(v: &Vec<CommitCell>) -> (r: Vec<CommitCell>)
    ensures
        r@ == v@,
{
    let mut out: Vec<CommitCell> = Vec::new();
    let mut i: usize = 0;
    while i < v.len()
        invariant
            i <= v@.len(),
            out@ == v@.subrange(0, i as int),
        decreases v@.len() - i,
    {
        out.push(v[i].clone());
        i = i + 1;
        assert(out@ =~= v@.subrange(0, i as int));
    }
    assert(v@.subrange(0, v@.len() as int) =~= v@);
    out
}

/// The cells of `row` that wait for a commit, in order.
fn live_cells(row: &Vec<CommitCell>) -> (r: Vec<CommitCell>)
    ensures
        cells_view(r@) == live(cells_view(row@)),
{
    let mut out: Vec<CommitCell> = Vec::new();
    let mut i: usize = 0;
    while i < row.len()
        invariant
            i <= row@.len(),
            cells_view(out@) == live(cells_view(row@).subrange(0, i as int)),
        decreases row@.len() - i,
    {
        let ghost s = cells_view(row@).subrange(0, i as int + 1);
        proof {
            assert(s.drop_last() =~= cells_view(row@).subrange(0, i as int));
            reveal(Seq::filter);
        }
        if row[i].parent.is_some() {
            out.push(row[i].clone());
            assert(cells_view(out@) =~= live(s));
        } else {
            assert(cells_view(out@) =~= live(s));
        }
        i = i + 1;
    }
    assert(cells_view(row@).subrange(0, row@.len() as int) =~= cells_view(row@));
    out
}

/// The first index from `start` on whose cell waits for `p`, or the length
/// of the row.
fn find_waiting_from(row: &Vec<CommitCell>, p: &Option<GitRef>, start: usize) -> (x: usize)
    ensures
        x as int == first_waiting_from(cells_view(row@), opt_view(*p), start as int),
{
    let ghost v = cells_view(row@);
    let mut i = start;
    if i >= row.len() {
        return row.len();
    }
    while i < row.len()
        invariant
            start <= i <= row@.len(),
            v == cells_view(row@),
            first_waiting_from(v, opt_view(*p), start as int) == first_waiting_from(
                v,
                opt_view(*p),
                i as int,
            ),
        decreases row@.len() - i,
    {
        if row[i].parent.is_some() && same_opt(&row[i].parent, p) {
            return i;
        }
        i = i + 1;
    }
    i
}

/// The first index from `start` on whose cell is a `ContinueUp`, or the
/// length of the row.
fn find_corner_from(row: &Vec<CommitCell>, start: usize) -> (x: usize)
    ensures
        x as int == first_corner_from(cells_view(row@), start as int),
{
    let ghost v = cells_view(row@);
    let mut i = start;
    if i >= row.len() {
        return row.len();
    }
    while i < row.len()
        invariant
            start <= i <= row@.len(),
            v == cells_view(row@),
            first_corner_from(v, start as int) == first_corner_from(v, i as int),
        decreases row@.len() - i,
    {
        if row[i].track == Track::ContinueUp {
            return i;
        }
        i = i + 1;
    }
    i
}

/// Appends to `out` the cells that carry the open column `c` into the new
/// row.
fn carry_into(prev: &Vec<CommitCell>, c: &CommitCell, out: &mut Vec<CommitCell>)
    ensures
        cells_view(final(out)@) == cells_view(old(out)@) + carry(
            cells_view(prev@),
            c@,
            old(out)@.len() as int,
        ),
{
    let ghost pv = cells_view(prev@);
    let ghost before = cells_view(out@);
    let at = out.len();
    if at < prev.len() && same_opt(&prev[at].parent, &c.parent) {
        out.push(
            CommitCell {
                parent: clone_opt(&prev[at].parent),
                related: prev[at].related.clone(),
                track: Track::Continue,
            },
        );
        assert(cells_view(out@) =~= before + carry(pv, c@, at as int));
        return ;
    }
    let x = find_waiting_from(prev, &c.parent, at);
    proof {
        lemma_first_waiting(pv, c@.parent, at as int);
    }
    if x < prev.len() {
        match &c.parent {
            Some(p) => {
                let ghost pp = p@;
                out.push(CommitCell::new(Some(p), p.clone(), Track::ContinueRight));
                let mut k: usize = at + 1;
                while k < x
                    invariant
                        at < x < prev@.len(),
                        at + 1 <= k <= x,
                        pp == p@,
                        cells_view(out@) == before + seq![
                            cell(Some(pp), pp, Track::ContinueRight),
                        ] + Seq::new((k - at - 1) as nat, |_k: int| cell(None, pp, Track::ContinueRight)),
                    decreases x - k,
                {
                    let ghost o0 = out@;
                    let nc = CommitCell::new(None, p.clone(), Track::ContinueRight);
                    out.push(nc);
                    proof {
                        lemma_cells_push(o0, nc);
                    }
                    k = k + 1;
                    assert(cells_view(out@) =~= before + seq![
                        cell(Some(pp), pp, Track::ContinueRight),
                    ] + Seq::new((k - at - 1) as nat, |_k: int| cell(None, pp, Track::ContinueRight)));
                }
                let ghost o0 = out@;
                let nc = CommitCell::new(None, p.clone(), Track::ContinueUp);
                out.push(nc);
                proof {
                    lemma_cells_push(o0, nc);
                }
                assert(cells_view(out@) =~= before + carry(pv, c@, at as int));
            },
            None => {
                assert(false);
            },
        }
    } else {
        out.push(
            CommitCell {
                parent: clone_opt(&c.parent),
                related: c.related.clone(),
                track: Track::Continue,
            },
        );
        assert(cells_view(out@) =~= before + carry(pv, c@, at as int));
    }
}

/// The open columns `open` of the row `prev`, carried into a new row.
fn carry_all(prev: &Vec<CommitCell>, open: &Vec<CommitCell>) -> (r: Vec<CommitCell>)
    ensures
        cells_view(r@) == carry_upto(cells_view(prev@), cells_view(open@), open@.len() as int),
{
    let mut out: Vec<CommitCell> = Vec::new();
    let mut i: usize = 0;
    while i < open.len()
        invariant
            i <= open@.len(),
            cells_view(out@) == carry_upto(cells_view(prev@), cells_view(open@), i as int),
        decreases open@.len() - i,
    {
        carry_into(prev, &open[i], &mut out);
        i = i + 1;
    }
    out
}

/// Column `y` of `t` ends if it waits for `r`; see `converge_at`.
fn converge_into(t: &mut Vec<CommitCell>, r: &GitRef, y: usize)
    requires
        y < old(t)@.len(),
    ensures
        final(t)@.len() == old(t)@.len(),
        cells_view(final(t)@) == converge_at(cells_view(old(t)@), r@, y as int),
{
    let ghost t0 = cells_view(t@);
    let n = t.len();
    if t[y].waits_for(r) {
        if t[y].track == Track::ContinueRight {
            t.set(y, CommitCell { parent: None, related: r.clone(), track: Track::ContinueRight });
            let ghost t1 = cells_view(t@);
            assert(t1 =~= t0.update(y as int, cell(None, r@, Track::ContinueRight)));
            assert(y < n);
            let u = find_corner_from(t, y + 1);
            proof {
                lemma_first_corner(t1, y + 1);
            }
            if u < t.len() {
                let parent = clone_opt(&t[u].parent);
                t.set(u, CommitCell { parent, related: r.clone(), track: Track::Branch });
                assert(cells_view(t@) =~= t1.update(
                    u as int,
                    cell(t1[u as int].parent, r@, Track::Branch),
                ));
            } else {
                t.set(y, CommitCell { parent: None, related: r.clone(), track: Track::Branch });
                assert(cells_view(t@) =~= t1.update(y as int, cell(None, r@, Track::Branch)));
            }
        } else {
            t.set(y, CommitCell { parent: None, related: r.clone(), track: Track::Branch });
            assert(cells_view(t@) =~= t0.update(y as int, cell(None, r@, Track::Branch)));
        }
    }
}

/// The row of `commit`, from the carried columns `tracks`.
fn place_commit(tracks: Vec<CommitCell>, commit: &Commit) -> (r: Vec<CommitCell>)
    ensures
        cells_view(r@) == place(
            cells_view(tracks@),
            commit.commit_ref@,
            ref_views(commit.parent_refs@),
        ),
{
    let mut t = tracks;
    let ghost t0 = cells_view(t@);
    let ghost parents = ref_views(commit.parent_refs@);
    let ghost rv = commit.commit_ref@;
    let np = commit.parent_refs.len();
    let target = Some(commit.commit_ref.clone());
    let x = find_waiting_from(&t, &target, 0);
    let n = t.len();
    if x < n {
        let related = if np > 0 {
            commit.parent_refs[0].clone()
        } else {
            t[x].related.clone()
        };
        let parent = if np > 0 {
            Some(commit.parent_refs[0].clone())
        } else {
            None
        };
        t.set(x, CommitCell { parent, related, track: Track::Node });
        let ghost t1 = cells_view(t@);
        assert(t1 =~= t0.update(x as int, node_over(t0[x as int], parents)));
        let mut y = x + 1;
        while y < n
            invariant
                x < y <= n,
                t@.len() == n,
                cells_view(t@) == converge_upto(t1, rv, x + 1, y as int),
                rv == commit.commit_ref@,
            decreases n - y,
        {
            converge_into(&mut t, &commit.commit_ref, y);
            y = y + 1;
        }
    } else {
        let related = if np > 0 {
            commit.parent_refs[0].clone()
        } else {
            commit.commit_ref.clone()
        };
        let parent = if np > 0 {
            Some(commit.parent_refs[0].clone())
        } else {
            None
        };
        t.push(CommitCell { parent, related, track: Track::Node });
        assert(cells_view(t@) =~= t0.push(fresh_node(rv, parents)));
    }
    let ghost body = cells_view(t@);
    let mut k: usize = 1;
    while k < np
        invariant
            1 <= k,
            np == commit.parent_refs@.len(),
            parents == ref_views(commit.parent_refs@),
            k <= np || k == 1,
            cells_view(t@) == body + Seq::new(
                (k - 1) as nat,
                |j: int| cell(Some(parents[j + 1]), parents[j + 1], Track::Merge),
            ),
        decreases np - k,
    {
        let p = commit.parent_refs[k].clone();
        let ghost t_before = t@;
        let nc = CommitCell::new(Some(&p), p.clone(), Track::Merge);
        t.push(nc);
        proof {
            lemma_cells_push(t_before, nc);
        }
        k = k + 1;
        assert(cells_view(t@) =~= body + Seq::new(
            (k - 1) as nat,
            |j: int| cell(Some(parents[j + 1]), parents[j + 1], Track::Merge),
        ));
    }
    assert(cells_view(t@) =~= body + merge_cells(parents));
    t
}

impl CommitGraph {
    /// Lays out the graph of `commits`, which come newest first, each before
    /// its parents.
    pub fn new(commits: &[Commit]) -> (g: CommitGraph)
        ensures
            g@ == layout(commit_keys(commits@)),
            g@.len() == commits@.len(),
    {
        let ghost cs = commit_keys(commits@);
        let mut rows: Vec<CommitRow> = Vec::new();
        let mut prev: Vec<CommitCell> = Vec::new();
        let mut k: usize = 0;
        while k < commits.len()
            invariant
                k <= commits@.len(),
                cs == commit_keys(commits@),
                rows@.map_values(|r: CommitRow| r@) == layout_upto(cs, k as int),
                cells_view(prev@) == last_row(layout_upto(cs, k as int)),
            decreases commits@.len() - k,
        {
            let open = live_cells(&prev);
            let row = place_commit(carry_all(&prev, &open), &commits[k]);
            prev = copy_cells(&row);
            let ghost before = rows@.map_values(|r: CommitRow| r@);
            rows.push(CommitRow { tracks: row });
            assert(rows@.map_values(|r: CommitRow| r@) =~= layout_upto(cs, k + 1));
            k = k + 1;
        }
        proof {
            crate::graph_laws::layout_len(cs);
        }
        CommitGraph { graph: rows }
    }
}

} // verus!
