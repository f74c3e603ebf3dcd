//! Small helpers of the views: sizes, shortened text, commit ranges.
use vstd::prelude::*;
use vstd::string::*;
use crate::text::substring;

verus! {

/// A width and a height.
#[derive(Debug, Clone, Copy, PartialEq, Eq, Structural)]
pub struct Dimensions {
    pub width: u16,
    pub height: u16,
}

impl Dimensions {
    /// The dimensions `width` by `height`.
    pub fn new(width: u16, height: u16) -> (r: Dimensions)
        ensures
            r == (Dimensions { width, height }),
    {
        Dimensions { width, height }
    }
}

/// `s` cut to `max` characters, the last three of which become `...`, when
/// it is longer than `max`.
pub open spec fn ellipsed(s: Seq<char>, max: nat) -> Seq<char> {
    if s.len() <= max {
        s
    } else {
        s.subrange(0, max - 3) + seq!['.', '.', '.']
    }
}

fn ellipsed_string(s: &str, max: usize) -> (r: String)
    requires
        s@.len() > max ==> max >= 3,
    ensures
        r@ == ellipsed(s@, max as nat),
{
    let n = s.unicode_len();
    if n <= max {
        substring(s, 0, n)
    } else {
        let mut r = substring(s, 0, max - 3);
        proof {
            reveal_strlit("...");
        }
        r.append("...");
        r
    }
}

/// Text that can be shortened to a width.
pub trait Ellipses {
    spec fn shown_text(&self) -> Seq<char>;

    fn ellipses(&self, max: usize) -> (r: String)
        requires
            self.shown_text().len() > max ==> max >= 3,
        ensures
            r@ == ellipsed(self.shown_text(), max as nat),
    ;
}

impl Ellipses for String {
    open spec fn shown_text(&self) -> Seq<char> {
        self@
    }

    fn ellipses(&self, max: usize) -> (r: String) {
        let r = ellipsed_string(self.as_str(), max);
        r
    }
}

/// Text that can be shortened to a width, giving text of its own kind.
pub trait Truncatable: Sized {
    spec fn text_of(&self) -> Seq<char>;

    fn ellipses(&self, width: usize) -> (r: Self)
        requires
            self.text_of().len() > width ==> width >= 3,
        ensures
            r.text_of() == ellipsed(self.text_of(), width as nat),
    ;
}

impl Truncatable for String {
    open spec fn text_of(&self) -> Seq<char> {
        self@
    }

    fn ellipses(&self, width: usize) -> (r: String) {
        ellipsed_string(self.as_str(), width)
    }
}

/// The commits that a diff spans: from `start` to `end`, or from `start` to
/// the index.
#[derive(Debug, Clone, Default)]
pub struct CommitRange {
    pub start: String,
    pub end: Option<String>,
}

impl CommitRange {
    /// The range as `git diff` reads it: `start..end`, or `start` alone.
    pub fn to_string(&self) -> (s: String)
        ensures
            s@ == match self.end {
                Some(e) => self.start@ + seq!['.', '.'] + e@,
                None => self.start@,
            },
    {
        let start = substring(self.start.as_str(), 0, self.start.as_str().unicode_len());
        assert(self.start@.subrange(0, self.start@.len() as int) =~= self.start@);
        match &self.end {
            Some(e) => {
                proof {
                    reveal_strlit("..");
                }
                let s = start.concat("..");
                s.concat(e.as_str())
            },
            None => start,
        }
    }
}

} // verus!
