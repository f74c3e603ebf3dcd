//! Commit records as the history query gives them.
use vstd::prelude::*;
use crate::refs::{occurs_in, str_contains, GitRef};
use crate::text::{
    lemma_pieces_nonempty, parse_u64, parse_unsigned, split, split_str, splitn, splitn_str,
    starts_with, str_starts_with, substring, tail_from,
};

verus! {

/// The names that point at a commit: branches, tags, remote refs, and the
/// branch that HEAD names.
#[derive(Debug)]
pub struct Decoration {
    pub branches: Vec<String>,
    pub tags: Vec<String>,
    pub refs: Vec<String>,
    pub head: Option<String>,
}

/// The strings of a list of strings.
pub open spec fn strings_view(v: Seq<String>) -> Seq<Seq<char>> {
    v.map_values(|s: String| s@)
}

/// A decoration as values.
pub struct DecorationView {
    pub branches: Seq<Seq<char>>,
    pub tags: Seq<Seq<char>>,
    pub refs: Seq<Seq<char>>,
    pub head: Option<Seq<char>>,
}

impl View for Decoration {
    type V = DecorationView;

    open spec fn view(&self) -> DecorationView {
        DecorationView {
            branches: strings_view(self.branches@),
            tags: strings_view(self.tags@),
            refs: strings_view(self.refs@),
            head: match self.head {
                Some(h) => Some(h@),
                None => None,
            },
        }
    }
}

/// The text `s` without the whitespace at its two ends.
pub uninterp spec fn trimmed(s: Seq<char>) -> Seq<char>;

/// Relies on `str::trim`: the result is `s` without leading and trailing
/// whitespace, and depends on the characters of `s` alone.
#[verifier::external_body]
fn trim(s: &str) -> (r: &str)
    ensures
        r@ == trimmed(s@),
{
    s.trim()
}

/// The decoration after reading the name `d`.
pub open spec fn deco_item(acc: DecorationView, d: Seq<char>) -> DecorationView {
    if occurs_in(" -> "@, d) {
        DecorationView { head: Some(split(d, " -> "@).last()), ..acc }
    } else if starts_with(d, "tag: "@) {
        DecorationView { tags: acc.tags.push(tail_from(d, 5)), ..acc }
    } else if occurs_in("/"@, d) {
        DecorationView { refs: acc.refs.push(d), ..acc }
    } else {
        DecorationView { branches: acc.branches.push(d), ..acc }
    }
}

/// The decoration after reading the first `k` names.
pub open spec fn deco_upto(items: Seq<Seq<char>>, k: int) -> DecorationView
    decreases k,
{
    if k <= 0 {
        DecorationView {
            branches: Seq::empty(),
            tags: Seq::empty(),
            refs: Seq::empty(),
            head: None,
        }
    } else {
        deco_item(deco_upto(items, k - 1), items[k - 1])
    }
}

/// The decoration that the trimmed text `t` writes: `(name, name, ...)`,
/// where `HEAD -> b` names the branch of HEAD, `tag: t` a tag, a name with a
/// slash a remote ref, and any other name a branch.
pub open spec fn deco_of(t: Seq<char>) -> DecorationView {
    let items = if t.len() >= 2 && t[0] == '(' {
        split(t.subrange(1, t.len() - 1), ", "@)
    } else {
        Seq::empty()
    };
    deco_upto(items, items.len() as int)
}

fn copy_str(s: &str) -> (r: String)
    ensures
        r@ == s@,
{
    s.to_owned()
}

impl Decoration {
    /// Reads a decoration that has been trimmed already.
    pub fn from_trimmed(deco_str: &str) -> (r: Decoration)
        ensures
            r@ == deco_of(deco_str@),
    {
        let mut d = Decoration {
            branches: Vec::new(),
            tags: Vec::new(),
            refs: Vec::new(),
            head: None,
        };
        assert(strings_view(d.branches@) =~= Seq::<Seq<char>>::empty());
        assert(strings_view(d.tags@) =~= Seq::<Seq<char>>::empty());
        assert(strings_view(d.refs@) =~= Seq::<Seq<char>>::empty());
        let n = deco_str.unicode_len();
        if n < 2 || deco_str.get_char(0) != '(' {
            assert(d@ == deco_of(deco_str@));
            return d;
        }
        let inner = deco_str.substring_char(1, n - 1);
        proof {
            reveal_strlit(", ");
            reveal_strlit(" -> ");
        }
        let items = split_str(inner, ", ");
        let ghost iv = strings_view(items@);
        assert(d@ == deco_upto(iv, 0));
        let mut k: usize = 0;
        while k < items.len()
            invariant
                iv == strings_view(items@),
                k <= items@.len(),
                d@ == deco_upto(iv, k as int),
            decreases items@.len() - k,
        {
            let item = items[k].as_str();
            assert(iv[k as int] == item@);
            let ghost acc = d@;
            proof {
                reveal_strlit(" -> ");
            }
            if str_contains(item, " -> ") {
                let parts = split_str(item, " -> ");
                proof {
                    lemma_pieces_nonempty(item@, " -> "@);
                }
                let last = parts.len() - 1;
                assert(strings_view(parts@).last() == parts@[last as int]@);
                d.head = Some(parts[last].clone());
            } else if str_starts_with(item, "tag: ") {
                let len = item.unicode_len();
                proof {
                    reveal_strlit("tag: ");
                }
                let tag = substring(item, 5, len);
                d.tags.push(tag);
                assert(strings_view(d.tags@) =~= acc.tags.push(tail_from(item@, 5)));
            } else if str_contains(item, "/") {
                d.refs.push(copy_str(item));
                assert(strings_view(d.refs@) =~= acc.refs.push(item@));
            } else {
                d.branches.push(copy_str(item));
                assert(strings_view(d.branches@) =~= acc.branches.push(item@));
            }
            assert(d@ == deco_item(acc, item@));
            k = k + 1;
        }
        d
    }

    /// Reads the decoration that `git log --decorate` prints.
    pub fn new(deco: &str) -> (r: Decoration)
        ensures
            r@ == deco_of(trimmed(deco@)),
    {
        Decoration::from_trimmed(trim(deco))
    }
}

/// One commit of the history, newest first in a log.
#[derive(Debug)]
pub struct Commit {
    pub commit_ref: GitRef,
    pub parent_refs: Vec<GitRef>,
    pub decoration: Decoration,
    pub author_name: String,
    pub author_email: String,
    /// Seconds since the Unix epoch, when the log gave one.
    pub timestamp: Option<i64>,
    pub subject: String,
}

/// The identifiers of a list of refs.
pub open spec fn ref_views(refs: Seq<GitRef>) -> Seq<Seq<char>> {
    refs.map_values(|g: GitRef| g@)
}

/// What the graph layout reads of a commit: its identifier and its parents.
pub open spec fn commit_key(c: Commit) -> (Seq<char>, Seq<Seq<char>>) {
    (c.commit_ref@, ref_views(c.parent_refs@))
}

/// What the graph layout reads of a list of commits.
pub open spec fn commit_keys(cs: Seq<Commit>) -> Seq<(Seq<char>, Seq<Seq<char>>)> {
    cs.map_values(|c: Commit| commit_key(c))
}

/// The parents that the log writes as identifiers separated by spaces, none when empty.
pub open spec fn parents_of(field: Seq<char>) -> Seq<Seq<char>> {
    if field.len() > 0 {
        split(field, " "@)
    } else {
        Seq::empty()
    }
}

/// The fields of a log line `hash|parents|decoration|author|email|time|subject`,
/// with the time read as seconds; `None` when the line has fewer fields or
/// the time is not a number of seconds that fits 63 bits.
pub open spec fn log_fields(line: Seq<char>) -> Option<(Seq<Seq<char>>, nat)> {
    let parts = splitn(line, "|"@, 7);
    if parts.len() < 7 {
        None
    } else {
        match parse_unsigned(parts[5], i64::MAX as nat) {
            Some(t) => Some((parts, t)),
            None => None,
        }
    }
}

impl Commit {
    /// A commit with the given fields; the decoration is read from the text
    /// that `git log --decorate` prints.
    pub fn new(
        commit_ref: GitRef,
        parent_refs: Vec<GitRef>,
        decoration: &str,
        author_name: String,
        author_email: String,
        timestamp: Option<i64>,
        subject: String,
    ) -> (r: Commit)
        ensures
            r.commit_ref == commit_ref,
            r.parent_refs@ == parent_refs@,
            r.decoration@ == deco_of(trimmed(decoration@)),
            r.author_name@ == author_name@,
            r.author_email@ == author_email@,
            r.timestamp == timestamp,
            r.subject@ == subject@,
    {
        Commit {
            commit_ref,
            parent_refs,
            decoration: Decoration::new(decoration),
            author_name,
            author_email,
            timestamp,
            subject,
        }
    }

    /// Reads one line of `git log --pretty=format:%h|%p|%d|%aN|%aE|%at|%s`.
    pub fn from_log_line(line: &str) -> (r: Option<Commit>)
        ensures
            match (r, log_fields(line@)) {
                (Some(c), Some((parts, t))) => {
                    &&& c.commit_ref@ == parts[0]
                    &&& ref_views(c.parent_refs@) == parents_of(parts[1])
                    &&& c.decoration@ == deco_of(trimmed(parts[2]))
                    &&& c.author_name@ == parts[3]
                    &&& c.author_email@ == parts[4]
                    &&& c.timestamp == Some(t as i64)
                    &&& c.subject@ == parts[6]
                },
                (None, None) => true,
                _ => false,
            },
    {
        proof {
            reveal_strlit("|");
            reveal_strlit(" ");
        }
        let parts = splitn_str(line, 7, "|");
        let ghost pv = strings_view(parts@);
        if parts.len() < 7 {
            return None;
        }
        assert(pv[0] == parts@[0]@ && pv[1] == parts@[1]@ && pv[2] == parts@[2]@);
        assert(pv[3] == parts@[3]@ && pv[4] == parts@[4]@ && pv[5] == parts@[5]@);
        assert(pv[6] == parts@[6]@);
        let time = match parse_u64(parts[5].as_str(), 9223372036854775807u64) {
            Some(t) => t,
            None => {
                return None;
            },
        };
        let parent_refs: Vec<GitRef> = if parts[1].as_str().unicode_len() > 0 {
            let ps = split_str(parts[1].as_str(), " ");
            let mut refs: Vec<GitRef> = Vec::new();
            let mut k: usize = 0;
            while k < ps.len()
                invariant
                    k <= ps@.len(),
                    refs@.len() == k,
                    forall|j: int| 0 <= j < k ==> #[trigger] refs@[j]@ == ps@[j]@,
                decreases ps@.len() - k,
            {
                refs.push(GitRef::new(ps[k].as_str()));
                k = k + 1;
            }
            assert(ref_views(refs@) =~= strings_view(ps@));
            refs
        } else {
            let refs: Vec<GitRef> = Vec::new();
            assert(ref_views(refs@) =~= Seq::<Seq<char>>::empty());
            refs
        };
        Some(
            Commit {
                commit_ref: GitRef::new(parts[0].as_str()),
                parent_refs,
                decoration: Decoration::new(parts[2].as_str()),
                author_name: parts[3].clone(),
                author_email: parts[4].clone(),
                timestamp: Some(time as i64),
                subject: parts[6].clone(),
            },
        )
    }
}

} // verus!
