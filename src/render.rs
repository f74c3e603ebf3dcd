//! The glyphs that draw one row of the commit graph, with a colour for each
//! line of descent that stays the same from row to row.
use vstd::prelude::*;
use crate::graph::{cells_view, opt_view, CellView, CommitCell, CommitRow, Track};
use crate::refs::GitRef;

verus! {

/// A character of the graph drawing.
#[derive(Debug, Clone, Copy, PartialEq, Eq, Structural)]
pub enum Symbol {
    Space,
    Bullet,
    BigBullet,
    RightUp,
    RightDown,
    TeeDown,
    TeeUp,
    VLine,
    UpRight,
    HalfHLine,
    HLine,
}

pub open spec fn symbol_char(s: Symbol) -> char {
    match s {
        Symbol::Space => ' ',
        Symbol::Bullet => '\u{2022}',
        Symbol::BigBullet => '\u{25cf}',
        Symbol::RightUp => '\u{256f}',
        Symbol::RightDown => '\u{256e}',
        Symbol::TeeDown => '\u{252c}',
        Symbol::TeeUp => '\u{2534}',
        Symbol::VLine => '\u{2502}',
        Symbol::UpRight => '\u{256d}',
        Symbol::HalfHLine => '\u{2576}',
        Symbol::HLine => '\u{2500}',
    }
}

impl Symbol {
    /// The character drawn for this symbol.
    pub fn as_char(&self) -> (c: char)
        ensures
            c == symbol_char(*self),
    {
        match self {
            Symbol::Space => ' ',
            Symbol::Bullet => '\u{2022}',
            Symbol::BigBullet => '\u{25cf}',
            Symbol::RightUp => '\u{256f}',
            Symbol::RightDown => '\u{256e}',
            Symbol::TeeDown => '\u{252c}',
            Symbol::TeeUp => '\u{2534}',
            Symbol::VLine => '\u{2502}',
            Symbol::UpRight => '\u{256d}',
            Symbol::HalfHLine => '\u{2576}',
            Symbol::HLine => '\u{2500}',
        }
    }
}

/// One drawn column: a symbol, and the indexed terminal colour it is drawn
/// in (`None`: the default colour).
#[derive(Debug, Clone, Copy, PartialEq, Eq, Structural)]
pub struct Glyph {
    pub symbol: Symbol,
    pub color: Option<u8>,
}

/// The colours given so far, one per commit in the order they were first
/// drawn.
#[derive(Debug)]
pub struct ColorMap {
    keys: Vec<GitRef>,
}

impl View for ColorMap {
    type V = Seq<Seq<char>>;

    closed spec fn view(&self) -> Seq<Seq<char>> {
        self.keys@.map_values(|g: GitRef| g@)
    }
}

/// Where `k` stands in `keys`, looking from the end; -1 when it is absent.
pub open spec fn key_index(keys: Seq<Seq<char>>, k: Seq<char>) -> int
    decreases keys.len(),
{
    if keys.len() == 0 {
        -1
    } else if keys.last() == k {
        keys.len() - 1
    } else {
        key_index(keys.drop_last(), k)
    }
}

/// The colour of the `n`th commit to be drawn: the palette of six colours
/// from index 1 on, in turn.
pub open spec fn palette(n: int) -> u8 {
    (1 + n % 6) as u8
}

pub open spec fn color_in(keys: Seq<Seq<char>>, k: Seq<char>) -> u8 {
    palette(key_index(keys, k))
}

/// The keys after `k` is drawn: `k` is added unless it is there.
pub open spec fn with_key(keys: Seq<Seq<char>>, k: Seq<char>) -> Seq<Seq<char>> {
    if key_index(keys, k) >= 0 {
        keys
    } else {
        keys.push(k)
    }
}

/// A symbol and the commit whose colour it is drawn in.
pub type Mark = (Symbol, Option<Seq<char>>);

/// The keys after the marks `ms` are drawn, in order.
pub open spec fn with_marks(keys: Seq<Seq<char>>, ms: Seq<Mark>) -> Seq<Seq<char>>
    decreases ms.len(),
{
    if ms.len() == 0 {
        keys
    } else {
        let ks = with_marks(keys, ms.drop_last());
        match ms.last().1 {
            Some(k) => with_key(ks, k),
            None => ks,
        }
    }
}

pub open spec fn glyph_of(m: Mark, keys: Seq<Seq<char>>) -> Glyph {
    Glyph {
        symbol: m.0,
        color: match m.1 {
            Some(k) => Some(color_in(keys, k)),
            None => None,
        },
    }
}

/// `out` draws the marks `ms` in the colours of `keys`.
pub open spec fn painted(out: Seq<Glyph>, keys: Seq<Seq<char>>, ms: Seq<Mark>) -> bool {
    &&& out.len() == ms.len()
    &&& forall|j: int| 0 <= j < ms.len() ==> #[trigger] out[j] == glyph_of(ms[j], keys)
}

/// The commit of the first `Merge` or `Branch` cell from `start` on.
pub open spec fn first_join_from(row: Seq<CellView>, start: int) -> Option<Seq<char>>
    decreases row.len() - start,
{
    if start < 0 || start >= row.len() {
        None
    } else if row[start].track == Track::Merge || row[start].track == Track::Branch {
        Some(row[start].related)
    } else {
        first_join_from(row, start + 1)
    }
}

/// Some cell from `start` on is a `Merge`.
pub open spec fn merge_from(row: Seq<CellView>, start: int) -> bool {
    exists|j: int| start <= j < row.len() && 0 <= j && #[trigger] row[j].track == Track::Merge
}

/// The bullet of a node: big where a `Merge` follows it in the row.
pub open spec fn bullet(row: Seq<CellView>, start: int) -> Symbol {
    if merge_from(row, start) {
        Symbol::BigBullet
    } else {
        Symbol::Bullet
    }
}

/// After a cell of this track, a vertical line stands one space apart.
pub open spec fn spaced(t: Track) -> bool {
    t == Track::Merge || t == Track::Branch || t == Track::Continue || t == Track::ContinueUp
        || t == Track::Node
}

/// The horizontal line that leads into a cell: half a line after a node.
pub open spec fn lead(prev: Track) -> Symbol {
    if prev == Track::Node {
        Symbol::HalfHLine
    } else {
        Symbol::HLine
    }
}

/// A later cell of the row has the same track and commit as cell `i`.
pub open spec fn more_of_run(row: Seq<CellView>, i: int) -> bool {
    exists|j: int|
        i < j < row.len() && #[trigger] row[j].track == row[i].track && row[j].related
            == row[i].related
}

/// The `ContinueRight` cell `i` is inside a run rather than its start.
pub open spec fn inside_run(row: Seq<CellView>, i: int) -> bool {
    row[i - 1].track == Track::ContinueRight || exists|j: int|
        i <= j < row.len() && #[trigger] row[j].parent == row[i].parent && row[j].track
            == Track::Branch
}

pub open spec fn first_marks(row: Seq<CellView>) -> Seq<Mark> {
    if row.len() == 0 {
        Seq::empty()
    } else if row[0].track == Track::Continue {
        seq![(Symbol::VLine, Some(row[0].related))]
    } else if row[0].track == Track::Node {
        seq![(bullet(row, 0), None)]
    } else {
        Seq::empty()
    }
}

pub open spec fn first_line(row: Seq<CellView>) -> Option<Seq<char>> {
    if row.len() > 0 && row[0].track == Track::Node {
        first_join_from(row, 0)
    } else {
        None
    }
}

/// The marks of column `i > 0`, where `h` is the commit of a pending
/// horizontal line.
pub open spec fn col_marks(row: Seq<CellView>, i: int, h: Option<Seq<char>>) -> Seq<Mark> {
    let c = row[i];
    let prev = row[i - 1].track;
    let rel = Some(c.related);
    match c.track {
        Track::Continue => (match h {
            Some(hr) => seq![(lead(prev), Some(hr))],
            None => if spaced(prev) {
                seq![(Symbol::Space, None)]
            } else {
                Seq::empty()
            },
        }) + seq![(Symbol::VLine, rel)],
        Track::ContinueRight => if inside_run(row, i) {
            seq![(Symbol::HLine, rel), (Symbol::HLine, rel)]
        } else {
            seq![
                match h {
                    Some(hr) => (Symbol::HLine, Some(hr)),
                    None => (Symbol::Space, None),
                },
                (Symbol::UpRight, rel),
            ]
        },
        Track::ContinueUp => seq![(lead(prev), rel), (Symbol::RightUp, rel)],
        Track::Node => (if spaced(prev) {
            seq![(Symbol::Space, None)]
        } else {
            Seq::empty()
        }) + seq![(bullet(row, i + 1), None)],
        Track::Branch => seq![
            (lead(prev), rel),
            (
                if more_of_run(row, i) {
                    Symbol::TeeUp
                } else {
                    Symbol::RightUp
                },
                rel,
            ),
        ],
        Track::Merge => seq![
            (lead(prev), rel),
            (
                if more_of_run(row, i) {
                    Symbol::TeeDown
                } else {
                    Symbol::RightDown
                },
                rel,
            ),
        ],
    }
}

/// The pending horizontal line after column `i > 0`.
pub open spec fn col_line(row: Seq<CellView>, i: int, h: Option<Seq<char>>) -> Option<Seq<char>> {
    match row[i].track {
        Track::Node => first_join_from(row, i + 1),
        Track::Branch | Track::Merge => if more_of_run(row, i) {
            h
        } else {
            None
        },
        _ => h,
    }
}

/// The marks of the columns before `i`, and the pending line after them.
pub open spec fn marks_upto(row: Seq<CellView>, i: int) -> (Seq<Mark>, Option<Seq<char>>)
    decreases i,
{
    if i <= 1 {
        (first_marks(row), first_line(row))
    } else {
        let (ms, h) = marks_upto(row, i - 1);
        (ms + col_marks(row, i - 1, h), col_line(row, i - 1, h))
    }
}

/// The marks that draw a row, left to right.
pub open spec fn marks(row: Seq<CellView>) -> Seq<Mark> {
    marks_upto(row, row.len() as int).0
}

pub open spec fn key_view(key: Option<&GitRef>) -> Option<Seq<char>> {
    match key {
        Some(h) => Some(h@),
        None => None,
    }
}

proof fn lemma_key_index(keys: Seq<Seq<char>>, k: Seq<char>)
    ensures
        -1 <= key_index(keys, k) < keys.len(),
        key_index(keys, k) >= 0 ==> keys[key_index(keys, k)] == k,
    decreases keys.len(),
{
    if keys.len() > 0 && keys.last() != k {
        lemma_key_index(keys.drop_last(), k);
    }
}

proof fn lemma_with_key_keeps(keys: Seq<Seq<char>>, k2: Seq<char>, k: Seq<char>)
    requires
        key_index(keys, k) >= 0,
    ensures
        key_index(with_key(keys, k2), k) == key_index(keys, k),
{
    if key_index(keys, k2) < 0 {
        let ks = keys.push(k2);
        assert(ks.drop_last() =~= keys);
        lemma_key_index(keys, k);
        lemma_key_index(keys, k2);
        if k2 == k {
            assert(false);
        }
    }
}

proof fn lemma_with_key_has(keys: Seq<Seq<char>>, k: Seq<char>)
    ensures
        key_index(with_key(keys, k), k) >= 0,
{
    if key_index(keys, k) < 0 {
        assert(keys.push(k).last() == k);
    }
}

pub proof fn lemma_with_marks_has(keys: Seq<Seq<char>>, ms: Seq<Mark>, j: int, k: Seq<char>)
    requires
        0 <= j < ms.len(),
        ms[j].1 == Some(k),
    ensures
        key_index(with_marks(keys, ms), k) >= 0,
    decreases ms.len(),
{
    let ks = with_marks(keys, ms.drop_last());
    if j == ms.len() - 1 {
        lemma_with_key_has(ks, k);
    } else {
        lemma_with_marks_has(keys, ms.drop_last(), j, k);
        match ms.last().1 {
            Some(k2) => lemma_with_key_keeps(ks, k2, k),
            None => {},
        }
    }
}

/// Drawing more marks leaves the colour of every commit drawn before as it
/// was.
pub proof fn lemma_with_marks_keeps(keys: Seq<Seq<char>>, ms: Seq<Mark>, k: Seq<char>)
    requires
        key_index(keys, k) >= 0,
    ensures
        key_index(with_marks(keys, ms), k) == key_index(keys, k),
    decreases ms.len(),
{
    if ms.len() > 0 {
        lemma_with_marks_keeps(keys, ms.drop_last(), k);
        match ms.last().1 {
            Some(k2) => lemma_with_key_keeps(with_marks(keys, ms.drop_last()), k2, k),
            None => {},
        }
    }
}

impl ColorMap {
    /// A map that has given no colour yet.
    pub fn new() -> (r: ColorMap)
        ensures
            r@ == Seq::<Seq<char>>::empty(),
    {
        let r = ColorMap { keys: Vec::new() };
        assert(r@ =~= Seq::<Seq<char>>::empty());
        r
    }

    /// The number of commits that have a colour.
    pub fn len(&self) -> (n: usize)
        ensures
            n == self@.len(),
    {
        self.keys.len()
    }

    /// The colour of `hash`; a commit not seen before gets the next colour
    /// of the palette.
    fn color_for(&mut self, hash: &GitRef) -> (c: u8)
        ensures
            final(self)@ == with_key(old(self)@, hash@),
            c == color_in(final(self)@, hash@),
    {
        let ghost v = self@;
        let n = self.keys.len();
        let mut i = n;
        assert(v.subrange(0, n as int) =~= v);
        while i > 0
            invariant
                i <= n,
                n == self.keys@.len(),
                v == self@,
                key_index(v, hash@) == key_index(v.subrange(0, i as int), hash@),
            decreases i,
        {
            let ghost s = v.subrange(0, i as int);
            assert(s.drop_last() =~= v.subrange(0, i - 1));
            assert(s.last() == self.keys@[i - 1]@);
            if self.keys[i - 1] == *hash {
                return (1 + (i - 1) % 6) as u8;
            }
            i = i - 1;
        }
        assert(v.subrange(0, 0) =~= Seq::<Seq<char>>::empty());
        self.keys.push(hash.clone());
        assert(self@ =~= v.push(hash@));
        assert(self@.drop_last() =~= v);
        (1 + n % 6) as u8
    }
}

/// The colour of the line of descent of `hash`: the colour it was given
/// when first drawn, or the next colour of the palette.
pub fn get_commit_color(hash: &GitRef, colors: &mut ColorMap) -> (c: u8)
    ensures
        final(colors)@ == with_key(old(colors)@, hash@),
        c == color_in(final(colors)@, hash@),
{
    colors.color_for(hash)
}

/// The glyph `symbol` in the colour of `hash`.
pub fn draw_cell(hash: &GitRef, symbol: Symbol, colors: &mut ColorMap) -> (g: Glyph)
    ensures
        final(colors)@ == with_key(old(colors)@, hash@),
        g == (Glyph { symbol, color: Some(color_in(final(colors)@, hash@)) }),
{
    Glyph { symbol, color: Some(get_commit_color(hash, colors)) }
}

fn push_mark(
    out: &mut Vec<Glyph>,
    colors: &mut ColorMap,
    symbol: Symbol,
    key: Option<&GitRef>,
    Ghost(c0): Ghost<Seq<Seq<char>>>,
    Ghost(ms): Ghost<Seq<Mark>>,
)
    requires
        old(colors)@ == with_marks(c0, ms),
        painted(old(out)@, old(colors)@, ms),
    ensures
        final(colors)@ == with_marks(c0, ms.push((symbol, key_view(key)))),
        painted(final(out)@, final(colors)@, ms.push((symbol, key_view(key)))),
{
    let ghost m: Mark = (symbol, key_view(key));
    assert(ms.push(m).drop_last() =~= ms);
    let ghost before = colors@;
    match key {
        Some(h) => {
            let g = draw_cell(h, symbol, colors);
            out.push(g);
            assert forall|j: int| 0 <= j < ms.push(m).len() implies #[trigger] out@[j]
                == glyph_of(ms.push(m)[j], colors@) by {
                if j < ms.len() {
                    match ms[j].1 {
                        Some(k) => {
                            lemma_with_marks_has(c0, ms, j, k);
                            lemma_with_key_keeps(before, h@, k);
                        },
                        None => {},
                    }
                }
            }
        },
        None => {
            out.push(Glyph { symbol, color: None });
            assert forall|j: int| 0 <= j < ms.push(m).len() implies #[trigger] out@[j]
                == glyph_of(ms.push(m)[j], colors@) by {}
        },
    }
}

fn lead_of(prev: Track) -> (s: Symbol)
    ensures
        s == lead(prev),
{
    if prev == Track::Node {
        Symbol::HalfHLine
    } else {
        Symbol::HLine
    }
}

fn is_spaced(t: Track) -> (b: bool)
    ensures
        b == spaced(t),
{
    match t {
        Track::Merge | Track::Branch | Track::Continue | Track::ContinueUp | Track::Node => true,
        Track::ContinueRight => false,
    }
}

/// The commit of the first `Merge` or `Branch` cell from `start` on.
fn first_join(tracks: &Vec<CommitCell>, start: usize) -> (r: Option<GitRef>)
    ensures
        opt_view(r) == first_join_from(cells_view(tracks@), start as int),
{
    let ghost v = cells_view(tracks@);
    let mut i = start;
    while i < tracks.len()
        invariant
            start <= i,
            v == cells_view(tracks@),
            first_join_from(v, start as int) == first_join_from(v, i as int),
        decreases tracks@.len() - i,
    {
        if tracks[i].track == Track::Merge || tracks[i].track == Track::Branch {
            return Some(tracks[i].related.clone());
        }
        i = i + 1;
    }
    None
}

fn has_merge_from(tracks: &Vec<CommitCell>, start: usize) -> (b: bool)
    ensures
        b == merge_from(cells_view(tracks@), start as int),
{
    let ghost v = cells_view(tracks@);
    let mut i = start;
    while i < tracks.len()
        invariant
            start <= i,
            v == cells_view(tracks@),
            forall|j: int| start <= j < i && j < v.len() ==> v[j].track != Track::Merge,
        decreases tracks@.len() - i,
    {
        if tracks[i].track == Track::Merge {
            assert(v[i as int].track == Track::Merge);
            return true;
        }
        i = i + 1;
    }
    false
}

fn has_more_of_run(tracks: &Vec<CommitCell>, i: usize) -> (b: bool)
    requires
        i < tracks@.len(),
    ensures
        b == more_of_run(cells_view(tracks@), i as int),
{
    let ghost v = cells_view(tracks@);
    let n = tracks.len();
    let mut j = i + 1;
    while j < tracks.len()
        invariant
            i < j,
            i < tracks@.len(),
            v == cells_view(tracks@),
            forall|q: int|
                i < q < j && q < v.len() ==> !(v[q].track == v[i as int].track && v[q].related
                    == v[i as int].related),
        decreases tracks@.len() - j,
    {
        if tracks[j].track == tracks[i].track && tracks[j].related == tracks[i].related {
            assert(v[j as int].track == v[i as int].track);
            return true;
        }
        j = j + 1;
    }
    false
}

fn is_inside_run(tracks: &Vec<CommitCell>, i: usize) -> (b: bool)
    requires
        1 <= i < tracks@.len(),
    ensures
        b == inside_run(cells_view(tracks@), i as int),
{
    let ghost v = cells_view(tracks@);
    if tracks[i - 1].track == Track::ContinueRight {
        return true;
    }
    let mut j = i;
    while j < tracks.len()
        invariant
            i <= j,
            i < tracks@.len(),
            v == cells_view(tracks@),
            forall|q: int|
                i <= q < j && q < v.len() ==> !(v[q].parent == v[i as int].parent && v[q].track
                    == Track::Branch),
        decreases tracks@.len() - j,
    {
        if tracks[j].track == Track::Branch && same_parent(&tracks[j], &tracks[i]) {
            assert(v[j as int].track == Track::Branch);
            return true;
        }
        j = j + 1;
    }
    false
}

fn same_parent(a: &CommitCell, b: &CommitCell) -> (r: bool)
    ensures
        r == (a@.parent == b@.parent),
{
    match (&a.parent, &b.parent) {
        (Some(x), Some(y)) => *x == *y,
        (None, None) => true,
        _ => false,
    }
}

/// Draws one row of the graph, left to right, in the colours of `colors`;
/// commits drawn for the first time get the next colours of the palette.
pub fn draw_graph(node: &CommitRow, colors: &mut ColorMap) -> (out: Vec<Glyph>)
    ensures
        final(colors)@ == with_marks(old(colors)@, marks(node@)),
        painted(out@, final(colors)@, marks(node@)),
{
    let tracks = &node.tracks;
    let ghost row = node@;
    let ghost c0 = colors@;
    let mut out: Vec<Glyph> = Vec::new();
    let ghost mut ms: Seq<Mark> = Seq::empty();
    assert(colors@ == with_marks(c0, ms));
    let n = tracks.len();
    let mut hline: Option<GitRef> = None;
    if n > 0 {
        if tracks[0].track == Track::Continue {
            push_mark(&mut out, colors, Symbol::VLine, Some(&tracks[0].related), Ghost(c0), Ghost(ms));
            proof {
                ms = ms.push((Symbol::VLine, Some(row[0].related)));
            }
        } else if tracks[0].track == Track::Node {
            hline = first_join(tracks, 0);
            let sym = if has_merge_from(tracks, 0) {
                Symbol::BigBullet
            } else {
                Symbol::Bullet
            };
            push_mark(&mut out, colors, sym, None, Ghost(c0), Ghost(ms));
            proof {
                ms = ms.push((sym, None));
            }
        }
    }
    assert(ms =~= marks_upto(row, 1).0);
    let mut i: usize = 1;
    while i < n
        invariant
            1 <= i,
            i <= n || (n == 0 && i == 1),
            n == tracks@.len(),
            row == cells_view(tracks@),
            ms == marks_upto(row, i as int).0,
            opt_view(hline) == marks_upto(row, i as int).1,
            colors@ == with_marks(c0, ms),
            painted(out@, colors@, ms),
        decreases n - i,
    {
        let ghost ms0 = ms;
        let ghost h0 = opt_view(hline);
        let prev = tracks[i - 1].track;
        let t = &tracks[i];
        match t.track {
            Track::Continue => {
                match &hline {
                    Some(h) => {
                        let s = lead_of(prev);
                        push_mark(&mut out, colors, s, Some(h), Ghost(c0), Ghost(ms));
                        proof {
                            ms = ms.push((s, Some(h@)));
                        }
                    },
                    None => {
                        if is_spaced(prev) {
                            push_mark(&mut out, colors, Symbol::Space, None, Ghost(c0), Ghost(ms));
                            proof {
                                ms = ms.push((Symbol::Space, None));
                            }
                        }
                    },
                }
                push_mark(&mut out, colors, Symbol::VLine, Some(&t.related), Ghost(c0), Ghost(ms));
                proof {
                    ms = ms.push((Symbol::VLine, Some(t.related@)));
                }
            },
            Track::ContinueRight => {
                if is_inside_run(tracks, i) {
                    push_mark(&mut out, colors, Symbol::HLine, Some(&t.related), Ghost(c0), Ghost(ms));
                    proof {
                        ms = ms.push((Symbol::HLine, Some(t.related@)));
                    }
                    push_mark(&mut out, colors, Symbol::HLine, Some(&t.related), Ghost(c0), Ghost(ms));
                    proof {
                        ms = ms.push((Symbol::HLine, Some(t.related@)));
                    }
                } else {
                    match &hline {
                        Some(h) => {
                            push_mark(&mut out, colors, Symbol::HLine, Some(h), Ghost(c0), Ghost(ms));
                            proof {
                                ms = ms.push((Symbol::HLine, Some(h@)));
                            }
                        },
                        None => {
                            push_mark(&mut out, colors, Symbol::Space, None, Ghost(c0), Ghost(ms));
                            proof {
                                ms = ms.push((Symbol::Space, None));
                            }
                        },
                    }
                    push_mark(&mut out, colors, Symbol::UpRight, Some(&t.related), Ghost(c0), Ghost(ms));
                    proof {
                        ms = ms.push((Symbol::UpRight, Some(t.related@)));
                    }
                }
            },
            Track::ContinueUp => {
                let s = lead_of(prev);
                push_mark(&mut out, colors, s, Some(&t.related), Ghost(c0), Ghost(ms));
                proof {
                    ms = ms.push((s, Some(t.related@)));
                }
                push_mark(&mut out, colors, Symbol::RightUp, Some(&t.related), Ghost(c0), Ghost(ms));
                proof {
                    ms = ms.push((Symbol::RightUp, Some(t.related@)));
                }
            },
            Track::Node => {
                if is_spaced(prev) {
                    push_mark(&mut out, colors, Symbol::Space, None, Ghost(c0), Ghost(ms));
                    proof {
                        ms = ms.push((Symbol::Space, None));
                    }
                }
                hline = first_join(tracks, i + 1);
                let sym = if has_merge_from(tracks, i + 1) {
                    Symbol::BigBullet
                } else {
                    Symbol::Bullet
                };
                push_mark(&mut out, colors, sym, None, Ghost(c0), Ghost(ms));
                proof {
                    ms = ms.push((sym, None));
                }
            },
            Track::Branch | Track::Merge => {
                let s = lead_of(prev);
                push_mark(&mut out, colors, s, Some(&t.related), Ghost(c0), Ghost(ms));
                proof {
                    ms = ms.push((s, Some(t.related@)));
                }
                let more = has_more_of_run(tracks, i);
                let end = if t.track == Track::Branch {
                    if more {
                        Symbol::TeeUp
                    } else {
                        Symbol::RightUp
                    }
                } else {
                    if more {
                        Symbol::TeeDown
                    } else {
                        Symbol::RightDown
                    }
                };
                push_mark(&mut out, colors, end, Some(&t.related), Ghost(c0), Ghost(ms));
                proof {
                    ms = ms.push((end, Some(t.related@)));
                }
                if !more {
                    hline = None;
                }
            },
        }
        assert(ms =~= ms0 + col_marks(row, i as int, h0));
        i = i + 1;
    }
    proof {
        assert(row.len() == n);
        if n == 0 {
            assert(marks_upto(row, 0) == marks_upto(row, 1));
        }
    }
    assert(ms == marks(row));
    out
}

} // verus!
