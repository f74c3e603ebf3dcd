//! The lines of a file diff, with the line numbers that each line of a hunk
//! has in the old and the new file.
use vstd::prelude::*;
use crate::refs::DiffAction;
use crate::text::{
    lemma_pieces_nonempty, lines_of, parse_u64, parse_unsigned, split, split_str, starts_with,
    str_starts_with, substring, tail_from,
};

verus! {

/// The numbers of a diff line in the old and in the new file.
#[derive(Debug, Clone, Copy, PartialEq, Eq, Structural)]
pub struct DiffLineNrs {
    pub old: u32,
    pub new: u32,
}

/// What a line of a diff is.
#[derive(Debug, Clone, Copy, PartialEq, Eq, Structural)]
pub enum DiffLine {
    Add(DiffLineNrs),
    Del(DiffLineNrs),
    Same(DiffLineNrs),
    Hunk,
    Start,
    Other,
}

/// The line numbers at which a hunk starts in the old and the new file.
#[derive(Debug, Clone, Copy, PartialEq, Eq, Structural)]
struct ChunkInfo {
    old: u32,
    new: u32,
}

/// The start of the range `-12,5` or `+12,5` of a hunk header: the number
/// after the sign and before any comma.
pub open spec fn range_start(part: Seq<char>) -> Option<nat> {
    if part.len() == 0 {
        None
    } else {
        parse_unsigned(split(part.drop_first(), seq![','])[0], u32::MAX as nat)
    }
}

/// The start lines of a hunk header `@@ -a,b +c,d @@`.
pub open spec fn chunk_of(line: Seq<char>) -> Option<(u32, u32)> {
    let parts = split(line, seq![' ']);
    if parts.len() < 3 {
        None
    } else {
        match (range_start(parts[1]), range_start(parts[2])) {
            (Some(o), Some(n)) => Some((o as u32, n as u32)),
            _ => None,
        }
    }
}

/// A line inside a hunk, by its first character.
pub open spec fn line_kind(line: Seq<char>, old: u32, new: u32) -> DiffLine {
    if line.len() > 0 && line[0] == '+' {
        DiffLine::Add(DiffLineNrs { old, new })
    } else if line.len() > 0 && line[0] == '-' {
        DiffLine::Del(DiffLineNrs { old, new })
    } else {
        DiffLine::Same(DiffLineNrs { old, new })
    }
}

/// A line outside a hunk, by its first character.
pub open spec fn meta_kind(line: Seq<char>) -> DiffLine {
    if line.len() > 0 && line[0] == 'd' {
        DiffLine::Start
    } else if line.len() > 0 && line[0] == '@' {
        DiffLine::Hunk
    } else {
        DiffLine::Other
    }
}

pub open spec fn bump(n: u32) -> u32 {
    if n < u32::MAX {
        (n + 1) as u32
    } else {
        n
    }
}

/// The line numbers of the next line of a hunk: an added line moves the new
/// file on, a deleted line the old one, any other line both.
pub open spec fn next_numbers(line: Seq<char>, old: u32, new: u32) -> (u32, u32) {
    if line.len() > 0 && line[0] == '+' {
        (old, bump(new))
    } else if line.len() > 0 && line[0] == '-' {
        (bump(old), new)
    } else {
        (bump(old), bump(new))
    }
}

/// What has been read of a diff: the numbers of the next hunk line, if a
/// hunk is open, and the new and old paths.
pub struct DiffState {
    pub chunk: Option<(u32, u32)>,
    pub path: Seq<char>,
    pub old_path: Seq<char>,
}

/// One line of a diff read in state `st`.
pub open spec fn diff_step(s: Seq<char>, st: DiffState) -> (DiffLine, DiffState) {
    if starts_with(s, "diff "@) {
        (meta_kind(s), DiffState { chunk: None, ..st })
    } else if starts_with(s, "@@"@) {
        (meta_kind(s), DiffState { chunk: chunk_of(s), ..st })
    } else if st.chunk is Some {
        let (o, n) = st.chunk->0;
        (line_kind(s, o, n), DiffState { chunk: Some(next_numbers(s, o, n)), ..st })
    } else if starts_with(s, "---"@) {
        (meta_kind(s), DiffState { old_path: tail_from(s, 4), ..st })
    } else if starts_with(s, "+++"@) {
        (meta_kind(s), DiffState { path: tail_from(s, 4), ..st })
    } else {
        (meta_kind(s), st)
    }
}

/// The kinds of the first `k` lines, and the state after them.
pub open spec fn diff_upto(lines: Seq<Seq<char>>, k: int) -> (Seq<DiffLine>, DiffState)
    decreases k,
{
    if k <= 0 {
        (Seq::empty(), DiffState { chunk: None, path: Seq::empty(), old_path: Seq::empty() })
    } else {
        let (kinds, st) = diff_upto(lines, k - 1);
        let (d, st2) = diff_step(lines[k - 1], st);
        (kinds.push(d), st2)
    }
}

/// Options of a diff.
#[derive(Debug, Clone, Copy, PartialEq, Eq, Structural)]
pub struct GitDiffOpts {
    pub ignore_whitespace: bool,
}

impl Default for GitDiffOpts {
    fn default() -> (r: GitDiffOpts)
        ensures
            !r.ignore_whitespace,
    {
        GitDiffOpts { ignore_whitespace: false }
    }
}

/// The diff of one file.
#[derive(Debug)]
pub struct FileDiff {
    /// file path
    pub path: String,
    /// old path (if renamed)
    pub old_path: String,
    /// commit range for diff
    pub action: DiffAction,
    /// raw diff lines
    pub lines: Vec<String>,
    /// metadata about each line
    pub line_meta: Vec<DiffLine>,
}

fn range_start_of(part: &str) -> (r: Option<u32>)
    ensures
        match r {
            Some(v) => range_start(part@) == Some(v as nat),
            None => range_start(part@) is None,
        },
{
    let n = part.unicode_len();
    if n == 0 {
        return None;
    }
    let rest = part.substring_char(1, n);
    assert(rest@ =~= part@.drop_first());
    let comma = ",";
    proof {
        reveal_strlit(",");
    }
    assert(comma@ == seq![',']);
    let pieces = split_str(rest, comma);
    proof {
        lemma_pieces_nonempty(rest@, comma@);
    }
    assert(pieces@.map_values(|p: String| p@)[0] == pieces@[0]@);
    match parse_u64(pieces[0].as_str(), 4294967295u64) {
        Some(v) => Some(v as u32),
        None => None,
    }
}

impl ChunkInfo {
    /// Reads a hunk header `@@ -a,b +c,d @@`.
    fn new(line: &str) -> (r: Option<ChunkInfo>)
        ensures
            match r {
                Some(c) => chunk_of(line@) == Some((c.old, c.new)),
                None => chunk_of(line@) is None,
            },
    {
        let space = " ";
        proof {
            reveal_strlit(" ");
        }
        assert(space@ == seq![' ']);
        let parts = split_str(line, space);
        if parts.len() < 3 {
            return None;
        }
        assert(parts@.map_values(|p: String| p@)[1] == parts@[1]@);
        assert(parts@.map_values(|p: String| p@)[2] == parts@[2]@);
        match (range_start_of(parts[1].as_str()), range_start_of(parts[2].as_str())) {
            (Some(o), Some(n)) => Some(ChunkInfo { old: o, new: n }),
            _ => None,
        }
    }
}

fn first_char(line: &str) -> (r: Option<char>)
    ensures
        r == (if line@.len() > 0 {
            Some(line@[0])
        } else {
            None
        }),
{
    if line.unicode_len() > 0 {
        Some(line.get_char(0))
    } else {
        None
    }
}

impl DiffLine {
    /// A line inside a hunk, with its numbers in the old and the new file.
    pub fn new_line(line: &str, old: u32, new: u32) -> (r: DiffLine)
        ensures
            r == line_kind(line@, old, new),
    {
        match first_char(line) {
            Some('+') => DiffLine::Add(DiffLineNrs { old, new }),
            Some('-') => DiffLine::Del(DiffLineNrs { old, new }),
            _ => DiffLine::Same(DiffLineNrs { old, new }),
        }
    }

    /// A line outside a hunk: a file header, a hunk header, or other text.
    pub fn new_meta(line: &str) -> (r: DiffLine)
        ensures
            r == meta_kind(line@),
    {
        match first_char(line) {
            Some('d') => DiffLine::Start,
            Some('@') => DiffLine::Hunk,
            _ => DiffLine::Other,
        }
    }
}

fn bump_u32(n: u32) -> (r: u32)
    ensures
        r == bump(n),
{
    if n < u32::MAX {
        n + 1
    } else {
        n
    }
}

/// The lines of `text`, as `str::lines` gives them.
pub fn text_lines(text: &str) -> (r: Vec<String>)
    ensures
        r@.map_values(|p: String| p@) == lines_of(text@),
{
    let nl = "\n";
    proof {
        reveal_strlit("\n");
    }
    assert(nl@ == seq!['\n']);
    let ps = split_str(text, nl);
    let ghost psv = ps@.map_values(|p: String| p@);
    proof {
        lemma_pieces_nonempty(text@, nl@);
    }
    let np = ps.len();
    assert(psv.last() == ps@[np - 1]@);
    let count = if ps[np - 1].as_str().unicode_len() == 0 {
        np - 1
    } else {
        np
    };
    let mut out: Vec<String> = Vec::new();
    let mut k: usize = 0;
    while k < count
        invariant
            count <= np,
            np == ps@.len(),
            psv == ps@.map_values(|p: String| p@),
            psv == split(text@, seq!['\n']),
            count == (if psv.last().len() == 0 {
                np - 1
            } else {
                np as int
            }),
            k <= count,
            out@.len() == k,
            forall|j: int| 0 <= j < k ==> #[trigger] out@[j]@ == lines_of(text@)[j],
        decreases count - k,
    {
        let p = ps[k].as_str();
        let len = p.unicode_len();
        assert(psv[k as int] == p@);
        if k + 1 < np && len > 0 && p.get_char(len - 1) == '\r' {
            out.push(substring(p, 0, len - 1));
            assert(p@.drop_last() =~= p@.subrange(0, len - 1));
        } else {
            out.push(substring(p, 0, len));
            assert(p@ =~= p@.subrange(0, len as int));
        }
        k = k + 1;
    }
    assert(out@.map_values(|p: String| p@) =~= lines_of(text@));
    out
}

/// The number of lines of `text`, as `str::lines` counts them.
pub fn text_lines_count(text: &str) -> (n: usize)
    ensures
        n == lines_of(text@).len(),
{
    let lines = text_lines(text);
    lines.len()
}

impl FileDiff {
    /// Reads the diff `text` of one file, made for `action`.
    pub fn new(text: &str, action: &DiffAction) -> (r: FileDiff)
        ensures
            r.lines@.map_values(|p: String| p@) == lines_of(text@),
            r.line_meta@ == diff_upto(lines_of(text@), lines_of(text@).len() as int).0,
            r.path@ == diff_upto(lines_of(text@), lines_of(text@).len() as int).1.path,
            r.old_path@ == diff_upto(lines_of(text@), lines_of(text@).len() as int).1.old_path,
            r.action@ == action@,
    {
        let lines = text_lines(text);
        let ghost lv = lines@.map_values(|p: String| p@);
        let mut chunk: Option<ChunkInfo> = None;
        let mut path = String::new();
        let mut old_path = String::new();
        let mut line_meta: Vec<DiffLine> = Vec::new();
        let mut k: usize = 0;
        while k < lines.len()
            invariant
                lv == lines@.map_values(|p: String| p@),
                k <= lines@.len(),
                line_meta@ == diff_upto(lv, k as int).0,
                (match chunk {
                    Some(c) => Some((c.old, c.new)),
                    None => None,
                }) == diff_upto(lv, k as int).1.chunk,
                path@ == diff_upto(lv, k as int).1.path,
                old_path@ == diff_upto(lv, k as int).1.old_path,
            decreases lines@.len() - k,
        {
            let s = lines[k].as_str();
            assert(lv[k as int] == s@);
            let ghost st = diff_upto(lv, k as int).1;
            let ghost step = diff_step(s@, st);
            let ghost meta0 = line_meta@;
            assert(diff_upto(lv, k + 1) == (meta0.push(step.0), step.1));
            if str_starts_with(s, "diff ") {
                chunk = None;
                line_meta.push(DiffLine::new_meta(s));
            } else if str_starts_with(s, "@@") {
                chunk = ChunkInfo::new(s);
                line_meta.push(DiffLine::new_meta(s));
            } else if chunk.is_some() {
                let info = chunk.unwrap();
                let d = DiffLine::new_line(s, info.old, info.new);
                let next = match first_char(s) {
                    Some('+') => ChunkInfo { old: info.old, new: bump_u32(info.new) },
                    Some('-') => ChunkInfo { old: bump_u32(info.old), new: info.new },
                    _ => ChunkInfo { old: bump_u32(info.old), new: bump_u32(info.new) },
                };
                chunk = Some(next);
                line_meta.push(d);
            } else if str_starts_with(s, "---") {
                let len = s.unicode_len();
                old_path = if len >= 4 {
                    substring(s, 4, len)
                } else {
                    String::new()
                };
                line_meta.push(DiffLine::new_meta(s));
            } else if str_starts_with(s, "+++") {
                let len = s.unicode_len();
                path = if len >= 4 {
                    substring(s, 4, len)
                } else {
                    String::new()
                };
                line_meta.push(DiffLine::new_meta(s));
            } else {
                line_meta.push(DiffLine::new_meta(s));
            }
            assert(line_meta@ == meta0.push(step.0));
            k = k + 1;
        }
        assert(lv.len() == lines_of(text@).len());
        FileDiff { path, old_path, action: action.clone(), lines, line_meta }
    }
}

} // verus!
