//! The three views of the browser as state: the commit log, the file
//! statistics of a diff, and the diff of one file.
use vstd::prelude::*;
use vstd::string::*;
use crate::commit::{commit_keys, strings_view, Commit};
use crate::diff::FileDiff;
use crate::graph::{layout, CommitGraph};
use crate::list::{cursor_at, ListCursor, ListData, ListInfo, ListScroll};
use crate::refs::{
    occurs_in, str_contains, target_text, target_view, target_view_text, DiffAction, GitRef,
    Target,
};
use crate::search::Search;
use crate::stat::Stat;
use crate::text::{decimal, decimal_of};
use crate::time::age_text;

verus! {

/// Some string of `v` holds `q`.
pub open spec fn any_holds(v: Seq<Seq<char>>, q: Seq<char>) -> bool {
    exists|i: int| 0 <= i < v.len() && occurs_in(q, #[trigger] v[i])
}

fn any_contains(v: &Vec<String>, q: &str) -> (b: bool)
    ensures
        b == any_holds(strings_view(v@), q@),
{
    let ghost sv = strings_view(v@);
    let mut i: usize = 0;
    while i < v.len()
        invariant
            sv == strings_view(v@),
            i <= v@.len(),
            forall|j: int| 0 <= j < i ==> !occurs_in(q@, #[trigger] sv[j]),
        decreases v@.len() - i,
    {
        assert(sv[i as int] == v@[i as int]@);
        if str_contains(v[i].as_str(), q) {
            return true;
        }
        i = i + 1;
    }
    false
}

fn wrapped(s: &str, open: &str, close: &str) -> (r: String)
    ensures
        r@ == open@ + s@ + close@,
{
    String::from_str(open).concat(s).concat(close)
}

fn wrap_all(v: &Vec<String>, open: &str, close: &str) -> (r: Vec<String>)
    ensures
        strings_view(r@) == strings_view(v@).map_values(|s: Seq<char>| open@ + s + close@),
{
    let mut out: Vec<String> = Vec::new();
    let mut i: usize = 0;
    while i < v.len()
        invariant
            i <= v@.len(),
            out@.len() == i,
            forall|j: int| 0 <= j < i ==> #[trigger] out@[j]@ == open@ + v@[j]@ + close@,
        decreases v@.len() - i,
    {
        out.push(wrapped(v[i].as_str(), open, close));
        i = i + 1;
    }
    assert(strings_view(out@) =~= bracketed(strings_view(v@), open@, close@));
    out
}

/// Each string of `v` between `open` and `close`.
pub open spec fn bracketed(v: Seq<Seq<char>>, open: Seq<char>, close: Seq<char>) -> Seq<Seq<char>> {
    v.map_values(|s: Seq<char>| open + s + close)
}

/// Whether a search for `q` finds the commit `c`, shown at the Unix time
/// `now`: in its hash, age, author, decorations or subject.
pub open spec fn commit_matches(c: Commit, now: i64, q: Seq<char>) -> bool {
    occurs_in(q, c.commit_ref@) || occurs_in(q, age_text(c.timestamp, now)) || occurs_in(
        q,
        c.author_name@,
    ) || any_holds(bracketed(c.decoration@.branches, "["@, "]"@), q) || any_holds(
        bracketed(c.decoration@.tags, "<"@, ">"@),
        q,
    ) || any_holds(bracketed(c.decoration@.refs, "<"@, ">"@), q) || (match c.decoration@.head {
        Some(d) => occurs_in(q, "["@ + d + "]"@),
        None => false,
    }) || occurs_in(q, c.subject@)
}

/// The fields of a commit as the log shows them, which a search looks in.
#[derive(Debug)]
pub struct CommitFields {
    pub hash: GitRef,
    pub age: String,
    pub author: String,
    pub branches: Vec<String>,
    pub tags: Vec<String>,
    pub refs: Vec<String>,
    pub head: Option<String>,
    pub subject: String,
}

/// Some field of `f` holds `q`.
pub open spec fn fields_hold(f: CommitFields, q: Seq<char>) -> bool {
    occurs_in(q, f.hash@) || occurs_in(q, f.age@) || occurs_in(q, f.author@) || any_holds(
        strings_view(f.branches@),
        q,
    ) || any_holds(strings_view(f.tags@), q) || any_holds(strings_view(f.refs@), q) || (match f.head {
        Some(h) => occurs_in(q, h@),
        None => false,
    }) || occurs_in(q, f.subject@)
}

impl CommitFields {
    /// The fields of `c` at the Unix time `now`: its age, branches and head
    /// in brackets, tags and remote refs in angle brackets.
    pub fn new(c: &Commit, now: i64) -> (r: CommitFields)
        ensures
            r.hash == c.commit_ref,
            r.age@ == age_text(c.timestamp, now),
            r.author@ == c.author_name@,
            strings_view(r.branches@) == bracketed(c.decoration@.branches, "["@, "]"@),
            strings_view(r.tags@) == bracketed(c.decoration@.tags, "<"@, ">"@),
            strings_view(r.refs@) == bracketed(c.decoration@.refs, "<"@, ">"@),
            forall|q: Seq<char>| fields_hold(r, q) == commit_matches(*c, now, q),
            match (r.head, c.decoration@.head) {
                (Some(h), Some(d)) => h@ == "["@ + d + "]"@,
                (None, None) => true,
                _ => false,
            },
            r.subject@ == c.subject@,
    {
        let deco = &c.decoration;
        let head = match &deco.head {
            Some(h) => Some(wrapped(h.as_str(), "[", "]")),
            None => None,
        };
        CommitFields {
            age: c.age(now),
            author: c.author_name.clone(),
            hash: c.commit_ref.clone(),
            branches: wrap_all(&deco.branches, "[", "]"),
            head,
            tags: wrap_all(&deco.tags, "<", ">"),
            refs: wrap_all(&deco.refs, "<", ">"),
            subject: c.subject.clone(),
        }
    }

    /// Whether some field holds `query`.
    pub fn contains(&self, query: &String) -> (b: bool)
        ensures
            b == fields_hold(*self, query@),
    {
        let q = query.as_str();
        self.hash.contains(q) || str_contains(self.age.as_str(), q) || str_contains(
            self.author.as_str(),
            q,
        ) || any_contains(&self.branches, q) || any_contains(&self.tags, q) || any_contains(
            &self.refs,
            q,
        ) || (match &self.head {
            Some(h) => str_contains(h.as_str(), q),
            None => false,
        }) || str_contains(self.subject.as_str(), q)
    }
}

/// The commit log view: the commits, their graph, the cursor, a marked
/// commit, and a search query.
#[derive(Debug)]
pub struct CommitLog {
    pub list: ListData,
    pub commits: Vec<Commit>,
    pub mark: Option<usize>,
    pub graph: CommitGraph,
    pub query: Option<String>,
    pub show_details: bool,
    /// The Unix time against which ages are shown and searched.
    pub now: i64,
}

/// What a commit identifier selects: the staging area, the working tree,
/// or a commit.
pub open spec fn target_for(r: Seq<char>) -> Option<Option<Seq<char>>> {
    if r.len() > 0 && r[0] == 'S' {
        None
    } else if forall|i: int| 0 <= i < r.len() ==> r[i] == '0' {
        Some(None)
    } else {
        Some(Some(r))
    }
}

impl CommitLog {
    /// The log of `commits` at the Unix time `now`, with the cursor on the
    /// first commit.
    pub fn new(commits: Vec<Commit>, now: i64) -> (r: CommitLog)
        ensures
            r.graph@ == layout(commit_keys(commits@)),
            r.commits@ == commits@,
            r.list == ListData::new_spec(),
            r.mark is None,
            r.query is None,
            !r.show_details,
            r.now == now,
    {
        let graph = CommitGraph::new(commits.as_slice());
        CommitLog {
            list: ListData::new(),
            mark: None,
            commits,
            graph,
            query: None,
            show_details: false,
            now,
        }
    }

    /// Marks the commit under the cursor, or clears the mark.
    pub fn cursor_mark(&mut self)
        ensures
            final(self).mark == match old(self).mark {
                None => Some(cursor_at(old(self).list.selected) as usize),
                Some(_) => None,
            },
            final(self).list == old(self).list,
            final(self).commits@ == old(self).commits@,
    {
        let cursor = self.cursor();
        match self.mark {
            None => {
                self.mark = Some(cursor);
            },
            _ => {
                self.mark = None;
            },
        }
    }

    /// What the commit under the cursor selects.
    pub fn get_selected(&self) -> (t: Target)
        requires
            cursor_at(self.list.selected) < self.commits@.len(),
        ensures
            target_view(t) == target_for(
                self.commits@[cursor_at(self.list.selected) as int].commit_ref@,
            ),
    {
        let r = &self.commits[self.cursor()].commit_ref;
        if r.is_staged() {
            Target::Staged
        } else if r.is_unstaged() {
            Target::Unstaged
        } else {
            Target::Ref(r.clone())
        }
    }

    /// The marked commit.
    pub fn get_marked(&self) -> (r: Option<GitRef>)
        ensures
            match self.mark {
                Some(m) => if m < self.commits@.len() {
                    r == Some(self.commits@[m as int].commit_ref)
                } else {
                    r is None
                },
                None => r is None,
            },
    {
        match self.mark {
            Some(m) => if m < self.commits.len() {
                Some(self.commits[m].commit_ref.clone())
            } else {
                None
            },
            None => None,
        }
    }

    /// Shows or hides the details of the commit under the cursor.
    pub fn toggle_show_details(&mut self)
        ensures
            final(self).show_details == !old(self).show_details,
            final(self).list == old(self).list,
    {
        self.show_details = !self.show_details;
    }

    /// The status text: `marked..selected`, or the selection alone.
    pub fn status(&self) -> (s: String)
        requires
            cursor_at(self.list.selected) < self.commits@.len(),
        ensures
            s@ == match self.mark {
                Some(m) if m < self.commits@.len() => self.commits@[m as int].commit_ref@ + ".."@
                    + target_view_text(
                    target_for(self.commits@[cursor_at(self.list.selected) as int].commit_ref@),
                ),
                _ => target_view_text(
                    target_for(self.commits@[cursor_at(self.list.selected) as int].commit_ref@),
                ),
            },
    {
        let t = self.get_selected();
        proof {
            assert(target_text(t) == target_view_text(target_view(t)));
        }
        let selected = t.to_string();
        match self.get_marked() {
            Some(m) => m.as_string().concat("..").concat(selected.as_str()),
            None => selected,
        }
    }
}

impl ListData {
    pub open spec fn new_spec() -> ListData {
        ListData { selected: Some(0), height: 0 }
    }
}

impl ListInfo for CommitLog {
    open spec fn count_of(&self) -> nat {
        self.commits@.len()
    }

    open spec fn pos_of(&self) -> nat {
        cursor_at(self.list.selected)
    }

    open spec fn moved_to(&self, pos: nat) -> nat {
        if pos < self.commits@.len() {
            pos
        } else {
            cursor_at(self.list.selected)
        }
    }

    fn list_count(&self) -> (n: usize) {
        self.commits.len()
    }

    fn list_pos(&self) -> (p: usize) {
        match self.list.selected {
            Some(c) => c,
            None => 0,
        }
    }

    fn set_list_pos(&mut self, pos: usize) {
        if pos < self.commits.len() {
            self.list.selected = Some(pos);
        }
    }
}

impl ListScroll for CommitLog {
    open spec fn height_of(&self) -> nat {
        self.list.height as nat
    }

    fn height(&self) -> (h: usize) {
        self.list.height
    }
}

impl ListCursor for CommitLog {
    open spec fn selected_of(&self) -> Option<usize> {
        self.list.selected
    }

    fn selected(&self) -> (s: Option<usize>) {
        self.list.selected
    }

    fn select(&mut self, line: Option<usize>) {
        self.list.selected = line;
    }
}

impl Search for CommitLog {
    open spec fn query_of(&self) -> Option<Seq<char>> {
        match self.query {
            Some(q) => Some(q@),
            None => None,
        }
    }

    /// A line matches when some field of its commit, shown at `now`, holds
    /// the query.
    open spec fn matches(&self, index: int) -> bool {
        match self.query {
            Some(q) => 0 <= index < self.commits@.len() && commit_matches(
                self.commits@[index],
                self.now,
                q@,
            ),
            None => false,
        }
    }

    fn set_search(&mut self, query: Option<String>) {
        self.query = query;
    }

    fn get_search(&self) -> (r: Option<String>) {
        match &self.query {
            Some(q) => Some(q.clone()),
            None => None,
        }
    }

    fn is_match(&self, idx: usize) -> (b: bool) {
        match &self.query {
            Some(query) => {
                let f = CommitFields::new(&self.commits[idx], self.now);
                let b = f.contains(query);
                b
            },
            None => false,
        }
    }
}

/// The file statistics view of a diff action.
#[derive(Debug)]
pub struct Stats {
    pub list: ListData,
    pub commits: DiffAction,
    pub stats: Vec<Stat>,
    pub search: Option<String>,
}

/// Whether a search for `q` finds the stat `st`: in its path or in one of
/// its two counts.
pub open spec fn stat_matches(st: Stat, q: Seq<char>) -> bool {
    occurs_in(q, st.path@) || occurs_in(q, decimal_of(st.adds as nat)) || occurs_in(
        q,
        decimal_of(st.deletes as nat),
    )
}

impl Stats {
    /// The statistics `stats` of `range`, with the cursor on the first file.
    pub fn new(range: DiffAction, stats: Vec<Stat>) -> (r: Stats)
        ensures
            r.commits == range,
            r.stats@ == stats@,
            r.list == ListData::new_spec(),
            r.search is None,
    {
        Stats { list: ListData::new(), stats, commits: range, search: None }
    }

    /// The diff action the statistics are of.
    pub fn commits(&self) -> (a: &DiffAction)
        ensures
            *a == self.commits,
    {
        &self.commits
    }

    /// The statistics of the file under the cursor.
    pub fn current_stat(&self) -> (st: &Stat)
        requires
            cursor_at(self.list.selected) < self.stats@.len(),
        ensures
            *st == self.stats@[cursor_at(self.list.selected) as int],
    {
        let cursor = self.cursor();
        &self.stats[cursor]
    }

    /// The status text: the diff action.
    pub fn status(&self) -> (s: String)
        ensures
            s@ == match self.commits@.anchor {
                Some(h) => h,
                None => target_view_text(self.commits@.target),
            },
    {
        self.commits.to_string()
    }
}

impl ListInfo for Stats {
    open spec fn count_of(&self) -> nat {
        self.stats@.len()
    }

    open spec fn pos_of(&self) -> nat {
        cursor_at(self.list.selected)
    }

    open spec fn moved_to(&self, pos: nat) -> nat {
        if pos < self.stats@.len() {
            pos
        } else {
            cursor_at(self.list.selected)
        }
    }

    fn list_count(&self) -> (n: usize) {
        self.stats.len()
    }

    fn list_pos(&self) -> (p: usize) {
        match self.list.selected {
            Some(c) => c,
            None => 0,
        }
    }

    fn set_list_pos(&mut self, pos: usize) {
        if pos < self.stats.len() {
            self.list.selected = Some(pos);
        }
    }
}

impl ListScroll for Stats {
    open spec fn height_of(&self) -> nat {
        self.list.height as nat
    }

    fn height(&self) -> (h: usize) {
        self.list.height
    }
}

impl ListCursor for Stats {
    open spec fn selected_of(&self) -> Option<usize> {
        self.list.selected
    }

    fn selected(&self) -> (s: Option<usize>) {
        self.list.selected
    }

    fn select(&mut self, line: Option<usize>) {
        self.list.selected = line;
    }
}

impl Search for Stats {
    open spec fn query_of(&self) -> Option<Seq<char>> {
        match self.search {
            Some(q) => Some(q@),
            None => None,
        }
    }

    open spec fn matches(&self, index: int) -> bool {
        match self.search {
            Some(q) => 0 <= index < self.stats@.len() && stat_matches(self.stats@[index], q@),
            None => false,
        }
    }

    fn set_search(&mut self, search: Option<String>) {
        self.search = search;
    }

    fn get_search(&self) -> (r: Option<String>) {
        match &self.search {
            Some(q) => Some(q.clone()),
            None => None,
        }
    }

    fn is_match(&self, idx: usize) -> (b: bool) {
        match &self.search {
            Some(search) => {
                let stat = &self.stats[idx];
                let q = search.as_str();
                str_contains(stat.path.as_str(), q) || str_contains(
                    decimal(stat.adds as u64).as_str(),
                    q,
                ) || str_contains(decimal(stat.deletes as u64).as_str(), q)
            },
            None => false,
        }
    }
}

/// The view of the diff of one file.
#[derive(Debug)]
pub struct Diff {
    pub height: usize,
    pub offset: usize,
    pub diff: FileDiff,
    pub range: DiffAction,
    pub stat: Stat,
    pub search: Option<String>,
    pub show_line_numbers: bool,
}

impl Diff {
    /// The view of `diff`, the diff of the file of `stat` in `range`, from
    /// its first line.
    pub fn new(stat: Stat, range: DiffAction, diff: FileDiff) -> (r: Diff)
        ensures
            r.stat == stat,
            r.range == range,
            r.diff == diff,
            r.offset == 0,
            r.height == 0,
            r.search is None,
            !r.show_line_numbers,
    {
        Diff {
            diff,
            height: 0,
            offset: 0,
            stat,
            range,
            search: None,
            show_line_numbers: false,
        }
    }

    /// Replaces the diff after the file may have changed.
    pub fn refresh(&mut self, diff: FileDiff)
        ensures
            final(self).diff == diff,
            final(self).offset == old(self).offset,
            final(self).stat == old(self).stat,
            final(self).range == old(self).range,
    {
        self.diff = diff;
    }

    /// Shows or hides the line numbers.
    pub fn toggle_show_line_numbers(&mut self)
        ensures
            final(self).show_line_numbers == !old(self).show_line_numbers,
            final(self).offset == old(self).offset,
    {
        self.show_line_numbers = !self.show_line_numbers;
    }

    /// The status text: `action: path`.
    pub fn status(&self) -> (s: String)
        ensures
            s@ == match self.range@.anchor {
                Some(h) => h,
                None => target_view_text(self.range@.target),
            } + ": "@ + self.stat.path@,
    {
        self.range.to_string().concat(": ").concat(self.stat.path.as_str())
    }
}

impl ListInfo for Diff {
    open spec fn count_of(&self) -> nat {
        self.diff.lines@.len()
    }

    open spec fn pos_of(&self) -> nat {
        self.offset as nat
    }

    open spec fn moved_to(&self, pos: nat) -> nat {
        pos
    }

    fn list_count(&self) -> (n: usize) {
        self.diff.lines.len()
    }

    fn list_pos(&self) -> (p: usize) {
        self.offset
    }

    fn set_list_pos(&mut self, pos: usize) {
        self.offset = pos;
    }
}

impl ListScroll for Diff {
    open spec fn height_of(&self) -> nat {
        self.height as nat
    }

    fn height(&self) -> (h: usize) {
        self.height
    }
}

impl Search for Diff {
    open spec fn query_of(&self) -> Option<Seq<char>> {
        match self.search {
            Some(q) => Some(q@),
            None => None,
        }
    }

    open spec fn matches(&self, index: int) -> bool {
        match self.search {
            Some(q) => 0 <= index < self.diff.lines@.len() && occurs_in(
                q@,
                self.diff.lines@[index]@,
            ),
            None => false,
        }
    }

    fn set_search(&mut self, search: Option<String>) {
        self.search = search;
    }

    fn get_search(&self) -> (r: Option<String>) {
        match &self.search {
            Some(q) => Some(q.clone()),
            None => None,
        }
    }

    fn is_match(&self, idx: usize) -> (b: bool) {
        match &self.search {
            Some(search) => str_contains(self.diff.lines[idx].as_str(), search.as_str()),
            None => false,
        }
    }
}

} // verus!
