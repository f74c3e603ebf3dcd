//! Commit subjects in the conventional form `type(scope)!: message`.
use vstd::prelude::*;
use regex::Regex;
use crate::text::substring;

verus! {

/// The pattern of a conventional subject: a word, an optional word in
/// parentheses, an optional `!`, a colon, and at least one more character.
pub const CONVENTIONAL_SUBJECT: &'static str = "^\\w+(\\(\\w+\\))?!?:.";

/// Whether the regular expression `pattern` matches `text`, or `None` when
/// `pattern` is not a valid expression.
pub uninterp spec fn regex_match(pattern: Seq<char>, text: Seq<char>) -> Option<bool>;

/// Relies on `regex::Regex::new` and `Regex::is_match`: whether `pattern`
/// matches somewhere in `text`, `None` when the pattern does not compile;
/// the answer depends on the two texts alone.
#[verifier::external_body]
fn regex_is_match(pattern: &str, text: &str) -> (r: Option<bool>)
    ensures
        r == regex_match(pattern@, text@),
{
    match Regex::new(pattern) {
        Ok(re) => Some(re.is_match(text)),
        Err(_) => None,
    }
}

/// The index of the first `c` in `s`, or -1.
pub open spec fn first_index_of(s: Seq<char>, c: char, from: int) -> int
    decreases s.len() - from,
{
    if from < 0 || from >= s.len() {
        -1
    } else if s[from] == c {
        from
    } else {
        first_index_of(s, c, from + 1)
    }
}

/// A subject cut after its first colon when it is conventional: the type
/// part (colon included) and the message; else the subject whole.
pub open spec fn subject_split(subject: Seq<char>, conventional: bool) -> (Seq<char>, Option<Seq<char>>) {
    let i = first_index_of(subject, ':', 0);
    if conventional && i >= 0 {
        (subject.subrange(0, i + 1), Some(subject.subrange(i + 1, subject.len() as int)))
    } else {
        (subject, None)
    }
}

/// Cuts `subject` after its first colon when `conventional` says it is a
/// conventional subject.
pub fn split_subject_when(subject: &str, conventional: bool) -> (r: (String, Option<String>))
    ensures
        (r.0@, match r.1 {
            Some(m) => Some(m@),
            None => None,
        }) == subject_split(subject@, conventional),
{
    let n = subject.unicode_len();
    let mut i: usize = 0;
    while i < n && subject.get_char(i) != ':'
        invariant
            n == subject@.len(),
            i <= n,
            first_index_of(subject@, ':', 0) == first_index_of(subject@, ':', i as int),
        decreases n - i,
    {
        i = i + 1;
    }
    if conventional && i < n {
        (substring(subject, 0, i + 1), Some(substring(subject, i + 1, n)))
    } else {
        assert(subject@.subrange(0, n as int) =~= subject@);
        (substring(subject, 0, n), None)
    }
}

/// Cuts `subject` after its first colon when it is a conventional subject.
pub fn split_subject(subject: &str) -> (r: (String, Option<String>))
    ensures
        (r.0@, match r.1 {
            Some(m) => Some(m@),
            None => None,
        }) == subject_split(
            subject@,
            regex_match(CONVENTIONAL_SUBJECT@, subject@) == Some(true),
        ),
{
    let conventional = match regex_is_match(CONVENTIONAL_SUBJECT, subject) {
        Some(b) => b,
        None => false,
    };
    split_subject_when(subject, conventional)
}

} // verus!
