//! Splitting, trimming and number parsing on the text that the version
//! control tool prints.
use vstd::prelude::*;
use vstd::string::*;
use crate::refs::matches_at;

verus! {

/// The pieces of `s` between occurrences of `sep`, found left to right
/// without overlap: the current piece starts at `start`, the search stands
/// at `i`, and `left` pieces may still be made (0: no bound).
pub open spec fn pieces_from(s: Seq<char>, sep: Seq<char>, start: int, i: int, left: nat) -> Seq<
    Seq<char>,
>
    decreases s.len() - i,
{
    if sep.len() == 0 || start < 0 || start > i || i + sep.len() > s.len() || left == 1 {
        seq![s.subrange(start, s.len() as int)]
    } else if s.subrange(i, i + sep.len()) == sep {
        seq![s.subrange(start, i)] + pieces_from(
            s,
            sep,
            i + sep.len(),
            i + sep.len(),
            if left > 1 {
                (left - 1) as nat
            } else {
                0
            },
        )
    } else {
        pieces_from(s, sep, start, i + 1, left)
    }
}

/// The pieces of `s` between the occurrences of `sep`, as `str::split`
/// makes them.
pub open spec fn split(s: Seq<char>, sep: Seq<char>) -> Seq<Seq<char>> {
    pieces_from(s, sep, 0, 0, 0)
}

/// At most `n` pieces of `s`, the last holding the rest, as `str::splitn`
/// makes them for `n >= 1`.
pub open spec fn splitn(s: Seq<char>, sep: Seq<char>, n: nat) -> Seq<Seq<char>> {
    pieces_from(s, sep, 0, 0, n)
}

pub open spec fn starts_with(s: Seq<char>, p: Seq<char>) -> bool {
    p.len() <= s.len() && s.subrange(0, p.len() as int) == p
}

pub open spec fn is_digit(c: char) -> bool {
    '0' <= c <= '9'
}

pub open spec fn digit_value(c: char) -> nat {
    (c as int - '0' as int) as nat
}

/// The number that the decimal digits `s` write.
pub open spec fn digits_value(s: Seq<char>) -> nat
    decreases s.len(),
{
    if s.len() == 0 {
        0
    } else {
        digits_value(s.drop_last()) * 10 + digit_value(s.last())
    }
}

pub open spec fn all_digits(s: Seq<char>) -> bool {
    forall|i: int| 0 <= i < s.len() ==> is_digit(#[trigger] s[i])
}

/// The digits of a number as `str::parse` reads them: an optional `+`, then
/// at least one decimal digit.
pub open spec fn number_digits(s: Seq<char>) -> Seq<char> {
    if s.len() > 0 && s[0] == '+' {
        s.subrange(1, s.len() as int)
    } else {
        s
    }
}

/// The value of `s` as an unsigned decimal number no larger than `max`.
pub open spec fn parse_unsigned(s: Seq<char>, max: nat) -> Option<nat> {
    let d = number_digits(s);
    if d.len() > 0 && all_digits(d) && digits_value(d) <= max {
        Some(digits_value(d))
    } else {
        None
    }
}

/// The lines of `s`: the pieces between newlines, each without the carriage
/// return before its newline; a newline at the very end ends the last line
/// rather than starting an empty one.
pub open spec fn lines_of(s: Seq<char>) -> Seq<Seq<char>> {
    let ps = split(s, seq!['\n']);
    let body = if ps.last().len() == 0 {
        ps.drop_last()
    } else {
        ps
    };
    Seq::new(
        body.len(),
        |k: int|
            if k < ps.len() - 1 && body[k].len() > 0 && body[k].last() == '\r' {
                body[k].drop_last()
            } else {
                body[k]
            },
    )
}

/// The characters of `s` from index `from` on, or none when `s` is shorter.
pub open spec fn tail_from(s: Seq<char>, from: int) -> Seq<char> {
    if from <= s.len() {
        s.subrange(from, s.len() as int)
    } else {
        Seq::empty()
    }
}

/// Whether `p` stands at the start of `s`.
pub fn str_starts_with(s: &str, p: &str) -> (b: bool)
    ensures
        b == starts_with(s@, p@),
{
    let n = s.unicode_len();
    if p.unicode_len() > n {
        return false;
    }
    matches_at(s, n, p, 0)
}

/// The text of `s` from index `from` to index `to`, as a new string.
pub fn substring(s: &str, from: usize, to: usize) -> (r: String)
    requires
        from <= to <= s@.len(),
    ensures
        r@ == s@.subrange(from as int, to as int),
{
    s.substring_char(from, to).to_owned()
}

/// The pieces of `s` between occurrences of `sep`, at most `limit` of them
/// (0: no bound).
fn split_pieces(s: &str, sep: &str, limit: usize) -> (r: Vec<String>)
    requires
        sep@.len() > 0,
    ensures
        r@.map_values(|p: String| p@) == pieces_from(s@, sep@, 0, 0, limit as nat),
{
    let len = s.unicode_len();
    let m = sep.unicode_len();
    let mut out: Vec<String> = Vec::new();
    let mut start: usize = 0;
    let mut i: usize = 0;
    let mut left: usize = limit;
    let ghost target = pieces_from(s@, sep@, 0, 0, limit as nat);
    assert(out@.map_values(|p: String| p@) =~= Seq::<Seq<char>>::empty());
    assert(target =~= out@.map_values(|p: String| p@) + pieces_from(s@, sep@, 0, 0, limit as nat));
    loop
        invariant
            len == s@.len(),
            m == sep@.len(),
            m > 0,
            start <= i <= len,
            target == pieces_from(s@, sep@, 0, 0, limit as nat),
            target == out@.map_values(|p: String| p@) + pieces_from(
                s@,
                sep@,
                start as int,
                i as int,
                left as nat,
            ),
        decreases len - i,
    {
        let ghost before = out@.map_values(|p: String| p@);
        if left == 1 || m > len - i {
            let piece = substring(s, start, len);
            out.push(piece);
            assert(out@.map_values(|p: String| p@) =~= before.push(
                s@.subrange(start as int, len as int),
            ));
            assert(out@.map_values(|p: String| p@) =~= target);
            return out;
        }
        if matches_at(s, len, sep, i) {
            let piece = substring(s, start, i);
            out.push(piece);
            assert(out@.map_values(|p: String| p@) =~= before.push(
                s@.subrange(start as int, i as int),
            ));
            let ghost rest = pieces_from(
                s@,
                sep@,
                (i + m) as int,
                (i + m) as int,
                if left > 1 {
                    (left - 1) as nat
                } else {
                    0
                },
            );
            assert(before + (seq![s@.subrange(start as int, i as int)] + rest) =~= before.push(
                s@.subrange(start as int, i as int),
            ) + rest);
            start = i + m;
            i = i + m;
            if left > 1 {
                left = left - 1;
            }
        } else {
            i = i + 1;
        }
    }
}

/// The pieces of `s` between the occurrences of `sep`, as `str::split`
/// gives them.
pub fn split_str(s: &str, sep: &str) -> (r: Vec<String>)
    requires
        sep@.len() > 0,
    ensures
        r@.map_values(|p: String| p@) == split(s@, sep@),
{
    split_pieces(s, sep, 0)
}

/// At most `n` pieces of `s`, as `str::splitn` gives them.
pub fn splitn_str(s: &str, n: usize, sep: &str) -> (r: Vec<String>)
    requires
        sep@.len() > 0,
        n >= 1,
    ensures
        r@.map_values(|p: String| p@) == splitn(s@, sep@, n as nat),
{
    split_pieces(s, sep, n)
}

/// Reads `s` as an unsigned decimal number no larger than `max`.
pub fn parse_u64(s: &str, max: u64) -> (r: Option<u64>)
    ensures
        match r {
            Some(v) => parse_unsigned(s@, max as nat) == Some(v as nat),
            None => parse_unsigned(s@, max as nat) is None,
        },
{
    let n = s.unicode_len();
    let start: usize = if n > 0 && s.get_char(0) == '+' {
        1
    } else {
        0
    };
    let ghost d = number_digits(s@);
    assert(d =~= s@.subrange(start as int, n as int));
    if start >= n {
        return None;
    }
    let mut v: u64 = 0;
    let mut i = start;
    while i < n
        invariant
            start <= i <= n,
            n == s@.len(),
            d == s@.subrange(start as int, n as int),
            d == number_digits(s@),
            all_digits(d.subrange(0, i - start)),
            v as nat == digits_value(d.subrange(0, i - start)),
            v <= max,
        decreases n - i,
    {
        let c = s.get_char(i);
        let ghost pre = d.subrange(0, i - start);
        let ghost next = d.subrange(0, i + 1 - start);
        assert(next.drop_last() =~= pre);
        assert(next.last() == c);
        if c < '0' || c > '9' {
            assert(!is_digit(d[i - start]));
            assert(!all_digits(d));
            return None;
        }
        let digit = (c as u32 - '0' as u32) as u64;
        if digit > max || v > (max - digit) / 10 {
            proof {
                assert(digits_value(next) == v * 10 + digit);
                if digit <= max {
                    assert(v * 10 + digit > max) by (nonlinear_arith)
                        requires
                            v > (max - digit) / 10,
                            digit <= max,
                    ;
                }
                if all_digits(d) {
                    lemma_prefix_value(d, i + 1 - start);
                }
            }
            return None;
        }
        assert(v * 10 + digit <= max) by (nonlinear_arith)
            requires
                v <= (max - digit) / 10,
                digit <= max,
        ;
        v = v * 10 + digit;
        i = i + 1;
        assert(all_digits(next));
    }
    assert(d.subrange(0, n - start) =~= d);
    Some(v)
}

proof fn lemma_prefix_value(d: Seq<char>, k: int)
    requires
        0 <= k <= d.len(),
        all_digits(d),
    ensures
        digits_value(d.subrange(0, k)) <= digits_value(d),
    decreases d.len(),
{
    if k < d.len() {
        let e = d.drop_last();
        assert(e.subrange(0, k) =~= d.subrange(0, k));
        assert(all_digits(e));
        lemma_prefix_value(e, k);
    } else {
        assert(d.subrange(0, k) =~= d);
    }
}

pub proof fn lemma_pieces_nonempty(s: Seq<char>, sep: Seq<char>)
    ensures
        split(s, sep).len() >= 1,
{
    lemma_pieces_from_nonempty(s, sep, 0, 0, 0);
}

proof fn lemma_pieces_from_nonempty(s: Seq<char>, sep: Seq<char>, start: int, i: int, left: nat)
    ensures
        pieces_from(s, sep, start, i, left).len() >= 1,
    decreases s.len() - i,
{
    if sep.len() == 0 || start < 0 || start > i || i + sep.len() > s.len() || left == 1 {
    } else if s.subrange(i, i + sep.len()) == sep {
        lemma_pieces_from_nonempty(
            s,
            sep,
            i + sep.len(),
            i + sep.len(),
            if left > 1 {
                (left - 1) as nat
            } else {
                0
            },
        );
    } else {
        lemma_pieces_from_nonempty(s, sep, start, i + 1, left);
    }
}

pub open spec fn digit_char(d: nat) -> char {
    if d == 0 {
        '0'
    } else if d == 1 {
        '1'
    } else if d == 2 {
        '2'
    } else if d == 3 {
        '3'
    } else if d == 4 {
        '4'
    } else if d == 5 {
        '5'
    } else if d == 6 {
        '6'
    } else if d == 7 {
        '7'
    } else if d == 8 {
        '8'
    } else {
        '9'
    }
}

/// The decimal digits of `n`, without leading zeros.
pub open spec fn decimal_of(n: nat) -> Seq<char>
    decreases n,
{
    if n < 10 {
        seq![digit_char(n)]
    } else {
        decimal_of(n / 10).push(digit_char(n % 10))
    }
}

fn digit_str(d: u64) -> (r: &'static str)
    requires
        d < 10,
    ensures
        r@ == seq![digit_char(d as nat)],
{
    proof {
        reveal_strlit("0");
        reveal_strlit("1");
        reveal_strlit("2");
        reveal_strlit("3");
        reveal_strlit("4");
        reveal_strlit("5");
        reveal_strlit("6");
        reveal_strlit("7");
        reveal_strlit("8");
        reveal_strlit("9");
    }
    let r = if d == 0 {
        "0"
    } else if d == 1 {
        "1"
    } else if d == 2 {
        "2"
    } else if d == 3 {
        "3"
    } else if d == 4 {
        "4"
    } else if d == 5 {
        "5"
    } else if d == 6 {
        "6"
    } else if d == 7 {
        "7"
    } else if d == 8 {
        "8"
    } else {
        "9"
    };
    assert(r@ =~= seq![digit_char(d as nat)]);
    r
}

/// The decimal digits of `n`, as `to_string` writes them.
pub fn decimal(n: u64) -> (r: String)
    ensures
        r@ == decimal_of(n as nat),
    decreases n,
{
    if n < 10 {
        String::from_str(digit_str(n))
    } else {
        let mut s = decimal(n / 10);
        s.append(digit_str(n % 10));
        assert(s@ =~= decimal_of(n as nat));
        s
    }
}

/// The starts of the occurrences of `q` in `s` from `i` on, found left to
/// right without overlap.
pub open spec fn match_starts_from(s: Seq<char>, q: Seq<char>, i: int) -> Seq<int>
    decreases s.len() - i,
{
    if q.len() == 0 || i < 0 || i + q.len() > s.len() {
        Seq::empty()
    } else if s.subrange(i, i + q.len()) == q {
        seq![i] + match_starts_from(s, q, i + q.len())
    } else {
        match_starts_from(s, q, i + 1)
    }
}

/// The character positions at which `q` occurs in `s`, left to right and
/// without overlap, as `str::split` cuts `s` at them.
pub fn match_starts(s: &str, q: &str) -> (r: Vec<usize>)
    ensures
        r@.map_values(|k: usize| k as int) == match_starts_from(s@, q@, 0),
{
    let n = s.unicode_len();
    let m = q.unicode_len();
    let mut out: Vec<usize> = Vec::new();
    if m == 0 {
        assert(out@.map_values(|k: usize| k as int) =~= Seq::<int>::empty());
        return out;
    }
    let mut i: usize = 0;
    let ghost target = match_starts_from(s@, q@, 0);
    assert(out@.map_values(|k: usize| k as int) + match_starts_from(s@, q@, 0) =~= target);
    while i <= n
        invariant
            n == s@.len(),
            m == q@.len(),
            m > 0,
            i <= n,
            target == match_starts_from(s@, q@, 0),
            target == out@.map_values(|k: usize| k as int) + match_starts_from(s@, q@, i as int),
        decreases n - i,
    {
        let ghost before = out@.map_values(|k: usize| k as int);
        if m > n - i {
            assert(out@.map_values(|k: usize| k as int) =~= target);
            return out;
        }
        if matches_at(s, n, q, i) {
            out.push(i);
            assert(out@.map_values(|k: usize| k as int) =~= before.push(i as int));
            assert(before + (seq![i as int] + match_starts_from(s@, q@, (i + m) as int))
                =~= before.push(i as int) + match_starts_from(s@, q@, (i + m) as int));
            i = i + m;
        } else {
            i = i + 1;
        }
    }
    out
}

} // verus!
