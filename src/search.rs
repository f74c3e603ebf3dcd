//! Moving a list's position to the next or previous line that matches a
//! search query.
use vstd::prelude::*;
use crate::list::{ListInfo, ListScroll};

verus! {

/// The first line in `[from, count)` for which `m` holds, or `count`.
pub open spec fn first_match_from(m: spec_fn(int) -> bool, count: int, from: int) -> int
    decreases count - from,
{
    if from < 0 || from >= count {
        count
    } else if m(from) {
        from
    } else {
        first_match_from(m, count, from + 1)
    }
}

/// The last line in `[0, to)` below `count` for which `m` holds, or -1.
pub open spec fn last_match_before(m: spec_fn(int) -> bool, count: int, to: int) -> int
    decreases to,
{
    if to <= 0 {
        -1
    } else if to - 1 < count && m(to - 1) {
        to - 1
    } else {
        last_match_before(m, count, to - 1)
    }
}

/// A list whose lines can be searched.
pub trait Search: ListInfo + ListScroll + Sized {
    /// The query, if any.
    spec fn query_of(&self) -> Option<Seq<char>>;

    /// Whether line `index` matches the query.
    spec fn matches(&self, index: int) -> bool;

    fn set_search(&mut self, search: Option<String>)
        ensures
            final(self).query_of() == match search {
                Some(s) => Some(s@),
                None => None,
            },
            final(self).count_of() == old(self).count_of(),
            final(self).pos_of() == old(self).pos_of(),
    ;

    fn get_search(&self) -> (r: Option<String>)
        ensures
            match r {
                Some(s) => self.query_of() == Some(s@),
                None => self.query_of() is None,
            },
    ;

    fn is_match(&self, index: usize) -> (b: bool)
        requires
            index < self.count_of(),
        ensures
            b == self.matches(index as int),
    ;

    /// Moves to the next matching line after the current one, if any.
    fn search_next(&mut self)
        ensures
            old(self).query_of() is Some && first_match_from(|i: int| old(self).matches(i), old(self).count_of() as int, (old(self).pos_of() + 1) as int)
                < old(self).count_of() ==> final(self).pos_of() == old(self).moved_to(
                first_match_from(|i: int| old(self).matches(i), old(self).count_of() as int, (old(self).pos_of() + 1) as int) as nat,
            ),
            !(old(self).query_of() is Some && first_match_from(|i: int| old(self).matches(i), old(self).count_of() as int, (old(self).pos_of() + 1) as int)
                < old(self).count_of()) ==> *final(self) == *old(self),
    {
        if self.get_search().is_some() {
            let count = self.list_count();
            let pos = self.list_pos();
            if pos >= count {
                return ;
            }
            let mut i = pos + 1;
            while i < count
                invariant
                    *self == *old(self),
                    old(self).query_of() is Some,
                    count == old(self).count_of(),
                    pos == old(self).pos_of(),
                    pos + 1 <= i <= count,
                    first_match_from(|i: int| old(self).matches(i), old(self).count_of() as int, (old(self).pos_of() + 1) as int) == first_match_from(|i: int| old(self).matches(i), old(self).count_of() as int, i as int),
                decreases count - i,
            {
                if self.is_match(i) {
                    self.scroll_to(i);
                    return ;
                }
                i = i + 1;
            }
        }
    }

    /// Moves to the last matching line before the current one, if any.
    fn search_prev(&mut self)
        ensures
            old(self).query_of() is Some && last_match_before(|i: int| old(self).matches(i), old(self).count_of() as int, old(self).pos_of() as int)
                >= 0 ==> final(self).pos_of() == old(self).moved_to(
                last_match_before(|i: int| old(self).matches(i), old(self).count_of() as int, old(self).pos_of() as int) as nat,
            ),
            !(old(self).query_of() is Some && last_match_before(|i: int| old(self).matches(i), old(self).count_of() as int, old(self).pos_of() as int) >= 0) ==> *final(self) == *old(self),
    {
        if self.get_search().is_some() {
            let pos = self.list_pos();
            let count = self.list_count();
            let mut i = pos;
            while i > 0
                invariant
                    *self == *old(self),
                    old(self).query_of() is Some,
                    count == old(self).count_of(),
                    pos == old(self).pos_of(),
                    i <= pos,
                    last_match_before(|i: int| old(self).matches(i), old(self).count_of() as int, old(self).pos_of() as int) == last_match_before(|i: int| old(self).matches(i), old(self).count_of() as int, i as int),
                decreases i,
            {
                if i - 1 < count && self.is_match(i - 1) {
                    self.scroll_to(i - 1);
                    return ;
                }
                i = i - 1;
            }
        }
    }
}

} // verus!
