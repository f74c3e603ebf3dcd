//! The status line under the views: a status text and a position.
use vstd::prelude::*;
use vstd::string::*;
use crate::text::{decimal, decimal_of};

verus! {

/// Something that can describe itself in the status line.
pub trait HasStatus {
    fn status(&self) -> String;
}

/// A position in a list: `pos` of `total`.
#[derive(Debug, Clone, Copy, PartialEq, Eq, Structural)]
pub struct Location {
    pub pos: usize,
    pub total: usize,
}

impl Location {
    /// The width that `pos/total` takes at most: two numbers as wide as
    /// `total` and the slash.
    pub fn max_width(&self) -> (w: u16)
        ensures
            w == decimal_of(self.total as nat).len() * 2 + 1,
    {
        let digits = decimal(self.total as u64);
        let n = digits.as_str().unicode_len();
        proof {
            lemma_decimal_len(self.total as nat);
        }
        (n * 2 + 1) as u16
    }

    /// The text `pos/total`.
    pub fn to_string(&self) -> (s: String)
        ensures
            s@ == decimal_of(self.pos as nat) + seq!['/'] + decimal_of(self.total as nat),
    {
        let mut s = decimal(self.pos as u64);
        proof {
            reveal_strlit("/");
        }
        s.append("/");
        let t = decimal(self.total as u64);
        s.append(t.as_str());
        s
    }
}

proof fn lemma_decimal_len(n: nat)
    requires
        n <= usize::MAX,
    ensures
        decimal_of(n).len() <= 20,
    decreases n,
{
    reveal_with_fuel(pow10, 21);
    assert(pow10(20) == 100000000000000000000nat);
    lemma_decimal_len_bound(n, 20);
}

proof fn lemma_decimal_len_bound(n: nat, k: nat)
    requires
        k >= 1,
        n < pow10(k),
    ensures
        decimal_of(n).len() <= k,
    decreases n,
{
    if n >= 10 {
        assert(k >= 2) by {
            if k == 1 {
                assert(pow10(1) == 10 * pow10(0));
            }
        }
        assert(n / 10 < pow10((k - 1) as nat)) by {
            assert(pow10(k) == 10 * pow10((k - 1) as nat));
        }
        lemma_decimal_len_bound(n / 10, (k - 1) as nat);
    }
}

pub open spec fn pow10(k: nat) -> nat
    decreases k,
{
    if k == 0 {
        1
    } else {
        10 * pow10((k - 1) as nat)
    }
}

/// The status line: a status text, and where the cursor stands.
#[derive(Debug)]
pub struct StatusLine {
    pub status: String,
    pub location: Option<Location>,
}

impl StatusLine {
    /// A status line with the given text and position.
    pub fn new(status: String, location: Option<Location>) -> (r: StatusLine)
        ensures
            r.status@ == status@,
            r.location == location,
    {
        StatusLine { status, location }
    }

    /// Sets the status text.
    pub fn set_status(&mut self, status: String)
        ensures
            final(self).status@ == status@,
            final(self).location == old(self).location,
    {
        self.status = status;
    }

    /// Sets the position to `pos` of `total`.
    pub fn set_location(&mut self, pos: usize, total: usize)
        ensures
            final(self).status@ == old(self).status@,
            final(self).location == Some(Location { pos, total }),
    {
        self.location = Some(Location { pos, total });
    }
}

/// The widget that draws a status line.
pub struct StatusLineView<'a> {
    pub statusline: &'a StatusLine,
}

impl<'a> StatusLineView<'a> {
    /// A widget that draws `statusline`.
    pub fn new(statusline: &'a StatusLine) -> (r: StatusLineView<'a>)
        ensures
            r.statusline == statusline,
    {
        StatusLineView { statusline }
    }
}

/// The status shown while a search is typed: a slash and the query.
pub fn search_status(query: String) -> (s: String)
    ensures
        s@ == seq!['/'] + query@,
{
    proof {
        reveal_strlit("/");
    }
    let s = String::from_str("/");
    s.concat(query.as_str())
}

} // verus!
