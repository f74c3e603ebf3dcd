//! Per-file statistics of a diff, one line of `--numstat` output each.
use vstd::prelude::*;
use crate::text::{parse_u64, parse_unsigned, split, split_str, substring};

verus! {

/// The changes to one file.
#[derive(Debug)]
pub struct Stat {
    /// Number of added lines
    pub adds: u32,
    /// Number of deleted lines
    pub deletes: u32,
    /// Path of the modified file
    pub path: String,
    /// Original path of the modified file (if renamed)
    pub old_path: String,
}

/// The fields of a stat line `adds<TAB>deletes<TAB>path`, where a renamed
/// path reads `old => new`; `None` when the line has fewer than three fields
/// or a count is not a number that fits 32 bits.
pub open spec fn stat_fields(line: Seq<char>) -> Option<(nat, nat, Seq<char>, Seq<char>)> {
    let parts = split(line, seq!['\t']);
    if parts.len() < 3 {
        None
    } else {
        match (parse_unsigned(parts[0], u32::MAX as nat), parse_unsigned(parts[1], u32::MAX as nat)) {
            (Some(a), Some(d)) => {
                let pp = split(parts[2], " => "@);
                if pp.len() >= 2 {
                    Some((a, d, pp[0], pp[1]))
                } else {
                    Some((a, d, parts[2], Seq::empty()))
                }
            },
            _ => None,
        }
    }
}

impl Stat {
    /// Reads one line of `--numstat` output.
    pub fn new(stat_line: &str) -> (r: Option<Stat>)
        ensures
            match (r, stat_fields(stat_line@)) {
                (Some(st), Some((a, d, p, o))) => st.adds == a && st.deletes == d && st.path@ == p
                    && st.old_path@ == o,
                (None, None) => true,
                _ => false,
            },
    {
        let tab = "\t";
        proof {
            reveal_strlit("\t");
        }
        assert(tab@ == seq!['\t']);
        let parts = split_str(stat_line, tab);
        let ghost pv = parts@.map_values(|p: String| p@);
        if parts.len() < 3 {
            return None;
        }
        assert(pv[0] == parts@[0]@ && pv[1] == parts@[1]@ && pv[2] == parts@[2]@);
        let adds = parse_u64(parts[0].as_str(), 4294967295u64);
        let deletes = parse_u64(parts[1].as_str(), 4294967295u64);
        match (adds, deletes) {
            (Some(a), Some(d)) => {
                let arrow = " => ";
                proof {
                    reveal_strlit(" => ");
                }
                let pp = split_str(parts[2].as_str(), arrow);
                let ghost ppv = pp@.map_values(|p: String| p@);
                if pp.len() >= 2 {
                    assert(ppv[0] == pp@[0]@ && ppv[1] == pp@[1]@);
                    let path = substring(pp[0].as_str(), 0, pp[0].as_str().unicode_len());
                    let old_path = substring(pp[1].as_str(), 0, pp[1].as_str().unicode_len());
                    assert(pp@[0]@.subrange(0, pp@[0]@.len() as int) =~= pp@[0]@);
                    assert(pp@[1]@.subrange(0, pp@[1]@.len() as int) =~= pp@[1]@);
                    Some(Stat { adds: a as u32, deletes: d as u32, path, old_path })
                } else {
                    let path = substring(parts[2].as_str(), 0, parts[2].as_str().unicode_len());
                    assert(parts@[2]@.subrange(0, parts@[2]@.len() as int) =~= parts@[2]@);
                    Some(Stat { adds: a as u32, deletes: d as u32, path, old_path: String::new() })
                }
            },
            _ => None,
        }
    }
}

impl Clone for Stat {
    fn clone(&self) -> (r: Stat)
        ensures
            r.adds == self.adds,
            r.deletes == self.deletes,
            r.path@ == self.path@,
            r.old_path@ == self.old_path@,
    {
        Stat {
            adds: self.adds,
            deletes: self.deletes,
            path: self.path.clone(),
            old_path: self.old_path.clone(),
        }
    }
}

} // verus!
