//! Commit identifiers and the selections that a diff or a show is made of.
use vstd::prelude::*;
use vstd::string::*;

verus! {

/// An identifier of a commit: an abbreviated hash, or one of the two
/// sentinels that stand for the working tree and the index.
#[derive(Debug, Hash)]
pub struct GitRef(String);

impl View for GitRef {
    type V = Seq<char>;

    closed spec fn view(&self) -> Seq<char> {
        self.0@
    }
}

/// The characters of the identifier that stands for unstaged changes.
pub open spec fn unstaged_pattern(len: nat) -> Seq<char> {
    Seq::new(len, |_i: int| '0')
}

/// The characters of the identifier that stands for staged changes.
pub open spec fn staged_pattern(len: nat) -> Seq<char> {
    Seq::new(len, |_i: int| 'S')
}

/// `q` occurs in `s` as a run of consecutive characters.
pub open spec fn occurs_in(q: Seq<char>, s: Seq<char>) -> bool {
    exists|i: int| 0 <= i && i + q.len() <= s.len() && #[trigger] s.subrange(i, i + q.len()) == q
}

/// A string made of `len` copies of the one-character string `unit`.
fn repeat_char(unit: &str, len: usize) -> (r: String)
    requires
        unit@.len() == 1,
    ensures
        r@ == Seq::new(len as nat, |_i: int| unit@[0]),
{
    let mut s = String::new();
    let mut i: usize = 0;
    while i < len
        invariant
            i <= len,
            unit@.len() == 1,
            s@ == Seq::new(i as nat, |_j: int| unit@[0]),
        decreases len - i,
    {
        s.append(unit);
        i = i + 1;
        assert(s@ =~= Seq::new(i as nat, |_j: int| unit@[0]));
    }
    s
}

/// Whether the characters of `q` stand in `s` from position `at` on.
pub fn matches_at(s: &str, slen: usize, q: &str, at: usize) -> (r: bool)
    requires
        slen == s@.len(),
        at + q@.len() <= s@.len(),
    ensures
        r == (s@.subrange(at as int, at + q@.len()) == q@),
{
    let n = q.unicode_len();
    let mut k: usize = 0;
    while k < n
        invariant
            n == q@.len(),
            slen == s@.len(),
            at + n <= s@.len(),
            k <= n,
            forall|j: int| 0 <= j < k ==> s@[at + j] == q@[j],
        decreases n - k,
    {
        if s.get_char(at + k) != q.get_char(k) {
            assert(s@.subrange(at as int, at + q@.len())[k as int] != q@[k as int]);
            return false;
        }
        k = k + 1;
    }
    assert(s@.subrange(at as int, at + q@.len()) =~= q@);
    true
}

/// Whether `q` occurs in `s`.
pub fn str_contains(s: &str, q: &str) -> (r: bool)
    ensures
        r == occurs_in(q@, s@),
{
    let n = s.unicode_len();
    let m = q.unicode_len();
    if m > n {
        return false;
    }
    let last = n - m;
    let mut i: usize = 0;
    while i < last
        invariant
            n == s@.len(),
            m == q@.len(),
            last == n - m,
            i <= last,
            forall|j: int| 0 <= j < i ==> #[trigger] s@.subrange(j, j + m) != q@,
        decreases last - i,
    {
        if matches_at(s, n, q, i) {
            return true;
        }
        i = i + 1;
    }
    if matches_at(s, n, q, last) {
        return true;
    }
    assert forall|j: int| 0 <= j && j + q@.len() <= s@.len() implies #[trigger] s@.subrange(
        j,
        j + q@.len(),
    ) != q@ by {
        assert(j <= i);
    }
    false
}

impl GitRef {
    /// An identifier with the given characters.
    pub fn new(ref_str: &str) -> (r: GitRef)
        ensures
            r@ == ref_str@,
    {
        GitRef(ref_str.to_owned())
    }

    /// One identifier for each string, in the same order.
    pub fn from_strs(refs: &[&str]) -> (r: Vec<GitRef>)
        ensures
            r@.len() == refs@.len(),
            forall|i: int| 0 <= i < refs@.len() ==> #[trigger] r@[i]@ == refs@[i]@,
    {
        let mut out: Vec<GitRef> = Vec::new();
        let mut i: usize = 0;
        while i < refs.len()
            invariant
                i <= refs@.len(),
                out@.len() == i,
                forall|j: int| 0 <= j < i ==> #[trigger] out@[j]@ == refs@[j]@,
            decreases refs@.len() - i,
        {
            out.push(GitRef::new(refs[i]));
            i = i + 1;
        }
        out
    }

    /// The sentinel for unstaged changes: `len` zeros.
    pub fn unstaged(len: usize) -> (r: GitRef)
        ensures
            r@ == unstaged_pattern(len as nat),
    {
        let unit = "0";
        proof {
            reveal_strlit("0");
        }
        let s = repeat_char(unit, len);
        assert(s@ =~= unstaged_pattern(len as nat));
        GitRef(s)
    }

    /// The sentinel for staged changes: `len` copies of `S`.
    pub fn staged(len: usize) -> (r: GitRef)
        ensures
            r@ == staged_pattern(len as nat),
    {
        let unit = "S";
        proof {
            reveal_strlit("S");
        }
        let s = repeat_char(unit, len);
        assert(s@ =~= staged_pattern(len as nat));
        GitRef(s)
    }

    /// Whether this identifier starts with `S`, as the staged sentinel does.
    pub fn is_staged(&self) -> (r: bool)
        ensures
            r == (self@.len() > 0 && self@[0] == 'S'),
    {
        let s = self.0.as_str();
        s.unicode_len() > 0 && s.get_char(0) == 'S'
    }

    /// Whether this identifier is made of zeros only, as the unstaged
    /// sentinel is.
    pub fn is_unstaged(&self) -> (r: bool)
        ensures
            r == (forall|i: int| 0 <= i < self@.len() ==> self@[i] == '0'),
    {
        let s = self.0.as_str();
        let n = s.unicode_len();
        let mut i: usize = 0;
        while i < n
            invariant
                n == self@.len(),
                s@ == self@,
                i <= n,
                forall|j: int| 0 <= j < i ==> self@[j] == '0',
            decreases n - i,
        {
            if s.get_char(i) != '0' {
                return false;
            }
            i = i + 1;
        }
        true
    }

    /// The length of the identifier in bytes of UTF-8.
    pub fn len(&self) -> (r: usize)
        ensures
            r == vstd::utf8::encode_utf8(self@).len() as usize,
    {
        self.0.as_str().len()
    }

    /// Whether `query` occurs in the identifier.
    pub fn contains(&self, query: &str) -> (r: bool)
        ensures
            r == occurs_in(query@, self@),
    {
        str_contains(self.0.as_str(), query)
    }

    /// The identifier as a string.
    pub fn as_string(&self) -> (r: String)
        ensures
            r@ == self@,
    {
        self.0.clone()
    }
}

impl Clone for GitRef {
    fn clone(&self) -> (r: GitRef)
        ensures
            r == *self,
    {
        GitRef(self.0.clone())
    }
}

impl PartialEq for GitRef {
    fn eq(&self, other: &GitRef) -> (r: bool)
        ensures
            r == (self@ == other@),
    {
        self.0 == other.0
    }
}

impl vstd::std_specs::cmp::PartialEqSpecImpl for GitRef {
    open spec fn obeys_eq_spec() -> bool {
        true
    }

    open spec fn eq_spec(&self, other: &GitRef) -> bool {
        self@ == other@
    }
}

impl Eq for GitRef {

}

/// What a diff is taken of: the staging area, the working tree, or a commit.
#[derive(Debug)]
pub enum Target {
    Staged,
    Unstaged,
    Ref(GitRef),
}

/// The text that names a target.
pub open spec fn target_text(t: Target) -> Seq<char> {
    match t {
        Target::Staged => "STAGED"@,
        Target::Unstaged => "UNSTAGED"@,
        Target::Ref(h) => h@,
    }
}

impl Target {
    /// The text that names this target: `STAGED`, `UNSTAGED`, or the
    /// identifier of the commit.
    pub fn to_string(&self) -> (s: String)
        ensures
            s@ == target_text(*self),
    {
        match self {
            Target::Staged => String::from_str("STAGED"),
            Target::Unstaged => String::from_str("UNSTAGED"),
            Target::Ref(h) => h.as_string(),
        }
    }
}

impl Clone for Target {
    fn clone(&self) -> (r: Target)
        ensures
            r == *self,
    {
        match self {
            Target::Staged => Target::Staged,
            Target::Unstaged => Target::Unstaged,
            Target::Ref(h) => Target::Ref(h.clone()),
        }
    }
}

/// The value of a target, with identifiers as characters.
pub open spec fn target_view(t: Target) -> Option<Option<Seq<char>>> {
    match t {
        Target::Staged => None,
        Target::Unstaged => Some(None),
        Target::Ref(h) => Some(Some(h@)),
    }
}

impl PartialEq for Target {
    fn eq(&self, other: &Target) -> (r: bool)
        ensures
            r == (target_view(*self) == target_view(*other)),
    {
        match (self, other) {
            (Target::Staged, Target::Staged) => true,
            (Target::Unstaged, Target::Unstaged) => true,
            (Target::Ref(a), Target::Ref(b)) => a == b,
            _ => false,
        }
    }
}

impl vstd::std_specs::cmp::PartialEqSpecImpl for Target {
    open spec fn obeys_eq_spec() -> bool {
        true
    }

    open spec fn eq_spec(&self, other: &Target) -> bool {
        target_view(*self) == target_view(*other)
    }
}

impl Eq for Target {

}

#[derive(Debug, Clone, Copy, PartialEq, Eq, Structural)]
enum DiffType {
    Diff,
    Show,
}

/// A set of commits that will be diffed or shown.
///
/// The target commit is the end state; the anchor commit is the base state,
/// HEAD when there is none.
#[derive(Debug)]
pub struct DiffAction {
    /// The target commit: the selected commit.
    target: Target,
    /// The anchor commit: the marked commit.
    anchor: Option<GitRef>,
    diff_type: DiffType,
}

/// A diff action as values: its target, its anchor, and whether it shows one
/// commit rather than diffing two states.
pub struct DiffActionView {
    pub target: Option<Option<Seq<char>>>,
    pub anchor: Option<Seq<char>>,
    pub shows: bool,
}

pub open spec fn anchor_view(a: Option<GitRef>) -> Option<Seq<char>> {
    match a {
        Some(h) => Some(h@),
        None => None,
    }
}

impl View for DiffAction {
    type V = DiffActionView;

    closed spec fn view(&self) -> DiffActionView {
        DiffActionView {
            target: target_view(self.target),
            anchor: anchor_view(self.anchor),
            shows: self.diff_type == DiffType::Show,
        }
    }
}

/// The text that names a target given as values.
pub open spec fn target_view_text(t: Option<Option<Seq<char>>>) -> Seq<char> {
    match t {
        None => "STAGED"@,
        Some(None) => "UNSTAGED"@,
        Some(Some(h)) => h,
    }
}

impl DiffAction {
    /// A diff between the target and the anchor, or between the target and
    /// HEAD; when the anchor is the target itself, a show of it.
    pub fn diff(target: Target, anchor: Option<GitRef>) -> (r: DiffAction)
        ensures
            r@ == (DiffActionView {
                target: target_view(target),
                anchor: anchor_view(anchor),
                shows: match (target, anchor) {
                    (Target::Ref(t), Some(a)) => t@ == a@,
                    _ => false,
                },
            }),
    {
        let mut diff_type = DiffType::Diff;
        if let Some(a) = &anchor {
            if let Target::Ref(t) = &target {
                if *t == *a {
                    diff_type = DiffType::Show;
                }
            }
        }
        DiffAction { target, anchor, diff_type }
    }

    /// A show of the target commit.
    pub fn show(target: Target) -> (r: DiffAction)
        ensures
            r@ == (DiffActionView { target: target_view(target), anchor: None, shows: true }),
    {
        DiffAction { target, anchor: None, diff_type: DiffType::Show }
    }

    /// A diff of the unstaged changes against the working tree.
    pub fn unstaged() -> (r: DiffAction)
        ensures
            r@ == (DiffActionView { target: Some(None), anchor: None, shows: false }),
    {
        DiffAction::diff(Target::Unstaged, None)
    }

    /// A diff of the staged changes against HEAD.
    pub fn staged() -> (r: DiffAction)
        ensures
            r@ == (DiffActionView { target: None, anchor: None, shows: false }),
    {
        DiffAction::diff(Target::Staged, None)
    }

    /// The target of the action.
    pub fn target(&self) -> (t: &Target)
        ensures
            target_view(*t) == self@.target,
    {
        &self.target
    }

    /// The anchor of the action.
    pub fn anchor(&self) -> (a: &Option<GitRef>)
        ensures
            anchor_view(*a) == self@.anchor,
    {
        &self.anchor
    }

    /// Whether this action involves the staging area.
    pub fn has_staged(&self) -> (b: bool)
        ensures
            b == (self@.target is None),
    {
        match self.target {
            Target::Staged => true,
            _ => false,
        }
    }

    /// Whether this is a show rather than a diff.
    pub fn is_show(&self) -> (b: bool)
        ensures
            b == self@.shows,
    {
        self.diff_type == DiffType::Show
    }

    /// The text that names the action: its anchor when it has one, else its
    /// target.
    pub fn to_string(&self) -> (s: String)
        ensures
            s@ == match self@.anchor {
                Some(h) => h,
                None => target_view_text(self@.target),
            },
    {
        match &self.anchor {
            Some(h) => h.as_string(),
            None => self.target.to_string(),
        }
    }
}

impl Clone for DiffAction {
    fn clone(&self) -> (r: DiffAction)
        ensures
            r == *self,
    {
        let anchor = match &self.anchor {
            Some(h) => Some(h.clone()),
            None => None,
        };
        DiffAction { target: self.target.clone(), anchor, diff_type: self.diff_type }
    }
}

} // verus!
