//! Extraction of a source range from a free-text diagnostic message.
//!
//! Some checker messages carry no structured position, only a parenthesized
//! "path:line:col" fragment embedded in the text. `parse_range` finds the
//! first such fragment and turns its one-based line and column into a
//! zero-based single-character protocol range; a message without a fragment
//! yields the default empty range.

use vstd::prelude::*;

use crate::Position;
use crate::Range;

verus! {

pub open spec fn is_digit_char(c: char) -> bool {
    '0' <= c && c <= '9'
}

pub open spec fn digit_val(c: char) -> int {
    c as int - '0' as int
}

/// The number that a sequence of decimal digits spells, most significant first.
pub open spec fn digits_val(s: Seq<char>) -> int
    decreases s.len(),
{
    if s.len() == 0 {
        0
    } else {
        digits_val(s.drop_last()) * 10 + digit_val(s.last())
    }
}

/// The characters of `s` from `i` to `l` inclusive spell a parenthesized
/// "path:line:col" fragment: '(', then any characters other than ':', then
/// ':', one or more digits, ':', one or more digits, and ')'.  The digit
/// groups stand at `j+1 .. k` and `k+1 .. l`.
pub open spec fn fragment_bounds(s: Seq<char>, i: int, j: int, k: int, l: int) -> bool {
    &&& 0 <= i < j < k < l < s.len()
    &&& s[i] == '('
    &&& (forall|t: int| i < t < j ==> s[t] != ':')
    &&& s[j] == ':'
    &&& j + 1 < k
    &&& (forall|t: int| j < t < k ==> is_digit_char(s[t]))
    &&& s[k] == ':'
    &&& k + 1 < l
    &&& (forall|t: int| k < t < l ==> is_digit_char(s[t]))
    &&& s[l] == ')'
}

/// A fragment begins at index `i` of `s`.
pub open spec fn matches_at(s: Seq<char>, i: int) -> bool {
    exists|j: int, k: int, l: int| fragment_bounds(s, i, j, k, l)
}

/// Some fragment occurs in `s`.
pub open spec fn has_fragment(s: Seq<char>) -> bool {
    exists|i: int| 0 <= i < s.len() && matches_at(s, i)
}

/// No fragment begins before index `i`.
pub open spec fn no_match_before(s: Seq<char>, i: int) -> bool {
    forall|t: int| 0 <= t < i ==> !matches_at(s, t)
}

/// The range that the fragment at `i, j, k, l` denotes: its line and column,
/// one-based in the message text, give a zero-based single-character range.
/// A line or column of zero, or one too large for the protocol type, yields
/// the default empty range.
pub open spec fn fragment_range(s: Seq<char>, i: int, j: int, k: int, l: int) -> Range {
    let line = digits_val(s.subrange(j + 1, k));
    let col = digits_val(s.subrange(k + 1, l));
    if 1 <= line <= u64::MAX && 1 <= col <= u64::MAX {
        Range {
            start: Position { line: (line - 1) as u64, character: (col - 1) as u64 },
            end: Position { line: (line - 1) as u64, character: col as u64 },
        }
    } else {
        Range::empty_spec()
    }
}

/// At one starting index, the fragment's inner boundaries are forced: the
/// colon after the path is the first colon, and each digit group ends at the
/// first character that is not a digit.
proof fn lemma_fragment_unique(
    s: Seq<char>,
    i: int,
    j1: int,
    k1: int,
    l1: int,
    j2: int,
    k2: int,
    l2: int,
)
    requires
        fragment_bounds(s, i, j1, k1, l1),
        fragment_bounds(s, i, j2, k2, l2),
    ensures
        j1 == j2,
        k1 == k2,
        l1 == l2,
{
    assert(!is_digit_char(':'));
    assert(!is_digit_char(')'));
    if j1 < j2 {
        assert(s[j1] != ':');
    } else if j2 < j1 {
        assert(s[j2] != ':');
    }
    if k1 < k2 {
        assert(is_digit_char(s[k1]));
    } else if k2 < k1 {
        assert(is_digit_char(s[k2]));
    }
    if l1 < l2 {
        assert(is_digit_char(s[l1]));
    } else if l2 < l1 {
        assert(is_digit_char(s[l2]));
    }
}

/// A sequence of digits spells a non-negative number.
proof fn lemma_digits_val_nonneg(s: Seq<char>)
    requires
        forall|t: int| 0 <= t < s.len() ==> is_digit_char(s[t]),
    ensures
        digits_val(s) >= 0,
    decreases s.len(),
{
    if s.len() > 0 {
        lemma_digits_val_nonneg(s.drop_last());
    }
}

/// Dropping trailing digits cannot increase the number spelled.
proof fn lemma_digits_val_prefix(s: Seq<char>, n: int)
    requires
        forall|t: int| 0 <= t < s.len() ==> is_digit_char(s[t]),
        0 <= n <= s.len(),
    ensures
        digits_val(s.subrange(0, n)) <= digits_val(s),
    decreases s.len() - n,
{
    if n == s.len() {
        assert(s.subrange(0, n) =~= s);
    } else {
        lemma_digits_val_prefix(s, n + 1);
        let p = s.subrange(0, n + 1);
        assert(p.drop_last() =~= s.subrange(0, n));
        lemma_digits_val_nonneg(s.subrange(0, n));
        assert(digits_val(p) == digits_val(s.subrange(0, n)) * 10 + digit_val(s[n]));
        assert(digit_val(s[n]) >= 0);
        assert(digits_val(s.subrange(0, n)) * 10 >= digits_val(s.subrange(0, n))) by (nonlinear_arith)
            requires digits_val(s.subrange(0, n)) >= 0;
    }
}

/// The characters of a string, in order, as a vector.
fn chars_of(s: &str) -> (r: Vec<char>)
    ensures
        r@ == s@,
{
    let n = s.unicode_len();
    let mut r: Vec<char> = Vec::new();
    let mut idx: usize = 0;
    while idx < n
        invariant
            n == s@.len(),
            idx <= n,
            r@ == s@.subrange(0, idx as int),
        decreases n - idx,
    {
        let c = s.get_char(idx);
        r.push(c);
        idx += 1;
        proof {
            assert(r@ =~= s@.subrange(0, idx as int));
        }
    }
    proof {
        assert(r@ =~= s@);
    }
    r
}

/// The first index at or after `from` holding a colon.
fn find_colon(chars: &Vec<char>, from: usize) -> (r: Option<usize>)
    requires
        from <= chars@.len(),
    ensures
        match r {
            Some(j) => {
                &&& from <= j < chars@.len()
                &&& chars@[j as int] == ':'
                &&& forall|t: int| from <= t < j ==> chars@[t] != ':'
            },
            None => forall|t: int| from <= t < chars@.len() ==> chars@[t] != ':',
        },
{
    let n = chars.len();
    let mut idx: usize = from;
    while idx < n
        invariant
            from <= idx <= n,
            n == chars@.len(),
            forall|t: int| from <= t < idx ==> chars@[t] != ':',
        decreases n - idx,
    {
        if chars[idx] == ':' {
            return Some(idx);
        }
        idx += 1;
    }
    None
}

/// The first index at or after `from` holding a character that is not a
/// decimal digit; the length of the text when every remaining character is one.
fn scan_digits(chars: &Vec<char>, from: usize) -> (r: usize)
    requires
        from <= chars@.len(),
    ensures
        from <= r <= chars@.len(),
        forall|t: int| from <= t < r ==> is_digit_char(chars@[t]),
        r < chars@.len() ==> !is_digit_char(chars@[r as int]),
{
    let n = chars.len();
    let mut idx: usize = from;
    while idx < n
        invariant
            from <= idx <= n,
            n == chars@.len(),
            forall|t: int| from <= t < idx ==> is_digit_char(chars@[t]),
        decreases n - idx,
    {
        let c = chars[idx];
        if !('0' <= c && c <= '9') {
            return idx;
        }
        idx += 1;
    }
    n
}

/// The boundaries of the fragment beginning at `i`, when one begins there.
fn try_fragment(chars: &Vec<char>, i: usize) -> (r: Option<(usize, usize, usize)>)
    requires
        i < chars@.len(),
        chars@[i as int] == '(',
    ensures
        match r {
            Some(jkl) => fragment_bounds(chars@, i as int, jkl.0 as int, jkl.1 as int, jkl.2 as int),
            None => !matches_at(chars@, i as int),
        },
{
    let s = chars;
    let n = s.len();
    let j = match find_colon(s, i + 1) {
        Some(j) => j,
        None => {
            proof {
                if matches_at(s@, i as int) {
                    let (j2, k2, l2): (int, int, int) = choose|j2: int, k2: int, l2: int|
                        fragment_bounds(s@, i as int, j2, k2, l2);
                    assert(s@[j2] != ':');
                }
            }
            return None;
        },
    };
    let k = scan_digits(s, j + 1);
    let colon_ok = k < n && k > j + 1 && s[k] == ':';
    if !colon_ok {
        proof {
            assert(!is_digit_char(':'));
            if matches_at(s@, i as int) {
                let (j2, k2, l2): (int, int, int) = choose|j2: int, k2: int, l2: int|
                    fragment_bounds(s@, i as int, j2, k2, l2);
                // the colon after the path is the first one, so j2 is j
                if j2 < j {
                    assert(s@[j2] != ':');
                } else if j < j2 {
                    assert(s@[j as int] != ':');
                }
                assert(j2 == j);
                // k2 ends the first digit group at a colon, impossible here
                if k2 < k {
                    assert(is_digit_char(s@[k2]));
                } else if k < k2 && k < n {
                    assert(is_digit_char(s@[k as int]));
                }
                assert(false);
            }
        }
        return None;
    }
    let l = scan_digits(s, k + 1);
    let paren_ok = l < n && l > k + 1 && s[l] == ')';
    if !paren_ok {
        proof {
            assert(!is_digit_char(':'));
            assert(!is_digit_char(')'));
            if matches_at(s@, i as int) {
                let (j2, k2, l2): (int, int, int) = choose|j2: int, k2: int, l2: int|
                    fragment_bounds(s@, i as int, j2, k2, l2);
                if j2 < j {
                    assert(s@[j2] != ':');
                } else if j < j2 {
                    assert(s@[j as int] != ':');
                }
                assert(j2 == j);
                if k2 < k {
                    assert(is_digit_char(s@[k2]));
                } else if k < k2 {
                    assert(is_digit_char(s@[k as int]));
                }
                assert(k2 == k);
                if l2 < l {
                    assert(is_digit_char(s@[l2]));
                } else if l < l2 && l < n {
                    assert(is_digit_char(s@[l as int]));
                }
                assert(false);
            }
        }
        return None;
    }
    Some((j, k, l))
}

/// The number spelled by the digits at `from .. to`, when it fits the
/// protocol's integer type.
fn digits_to_u64(chars: &Vec<char>, from: usize, to: usize) -> (r: Option<u64>)
    requires
        from <= to <= chars@.len(),
        forall|t: int| from <= t < to ==> is_digit_char(chars@[t]),
    ensures
        match r {
            Some(v) => v as int == digits_val(chars@.subrange(from as int, to as int)),
            None => digits_val(chars@.subrange(from as int, to as int)) > u64::MAX,
        },
{
    let mut acc: u64 = 0;
    let mut idx: usize = from;
    while idx < to
        invariant
            from <= idx <= to <= chars@.len(),
            forall|t: int| from <= t < to ==> is_digit_char(chars@[t]),
            acc as int == digits_val(chars@.subrange(from as int, idx as int)),
        decreases to - idx,
    {
        let c = chars[idx];
        assert(is_digit_char(chars@[idx as int]));
        let d: u64 = (c as u32 as u64) - ('0' as u32 as u64);
        assert(d == digit_val(chars@[idx as int]) && d <= 9);
        proof {
            let p = chars@.subrange(from as int, idx + 1);
            assert(p.drop_last() =~= chars@.subrange(from as int, idx as int));
            assert(digits_val(p) == digits_val(chars@.subrange(from as int, idx as int)) * 10
                + digit_val(chars@[idx as int]));
        }
        if acc > (u64::MAX - d) / 10 {
            proof {
                assert(acc as int * 10 + d as int > u64::MAX) by (nonlinear_arith)
                    requires
                        acc as int > (u64::MAX - d as int) / 10,
                        0 <= d as int <= 9;
                let whole = chars@.subrange(from as int, to as int);
                assert(forall|t: int| 0 <= t < whole.len() ==> is_digit_char(whole[t]));
                lemma_digits_val_prefix(whole, idx + 1 - from);
                assert(whole.subrange(0, idx + 1 - from) =~= chars@.subrange(from as int, idx + 1));
            }
            return None;
        }
        proof {
            assert(acc as int * 10 + d as int <= u64::MAX) by (nonlinear_arith)
                requires
                    acc as int <= (u64::MAX - d as int) / 10,
                    0 <= d as int <= 9;
        }
        acc = acc * 10 + d;
        idx += 1;
    }
    proof {
        assert(chars@.subrange(from as int, idx as int) =~= chars@.subrange(
            from as int,
            to as int,
        ));
    }
    Some(acc)
}

/// Finds the first parenthesized "path:line:col" fragment of a diagnostic
/// message and yields the single-character range it names, zero-based; a
/// message without such a fragment, or one whose numbers are out of range,
/// yields the default empty range.
pub fn parse_range(msg: &str) -> (r: Range)
    ensures
        !has_fragment(msg@) ==> r == Range::empty_spec(),
        forall|i: int, j: int, k: int, l: int|
            #[trigger] fragment_bounds(msg@, i, j, k, l) && no_match_before(msg@, i) ==> r
                == fragment_range(msg@, i, j, k, l),
        r.well_formed(),
{
    let chars = chars_of(msg);
    let n = chars.len();
    let mut i: usize = 0;
    while i < n
        invariant
            i <= n,
            n == chars@.len(),
            chars@ == msg@,
            no_match_before(msg@, i as int),
        decreases n - i,
    {
        if chars[i] == '(' {
            if let Some((j, k, l)) = try_fragment(&chars, i) {
                let line = digits_to_u64(&chars, j + 1, k);
                let col = digits_to_u64(&chars, k + 1, l);
                let r = match (line, col) {
                    (Some(li), Some(co)) => {
                        if li >= 1 && co >= 1 {
                            Range {
                                start: Position { line: li - 1, character: co - 1 },
                                end: Position { line: li - 1, character: co },
                            }
                        } else {
                            Range::empty()
                        }
                    },
                    _ => Range::empty(),
                };
                proof {
                    assert(matches_at(msg@, i as int));
                    assert(has_fragment(msg@));
                    lemma_digits_val_nonneg(msg@.subrange(j + 1, k as int));
                    lemma_digits_val_nonneg(msg@.subrange(k + 1, l as int));
                    assert(r == fragment_range(msg@, i as int, j as int, k as int, l as int));
                    assert forall|i2: int, j2: int, k2: int, l2: int|
                        #[trigger] fragment_bounds(msg@, i2, j2, k2, l2) && no_match_before(
                            msg@,
                            i2,
                        ) implies r == fragment_range(msg@, i2, j2, k2, l2) by {
                        assert(matches_at(msg@, i2));
                        assert(matches_at(msg@, i as int));
                        if i2 < i {
                            assert(!matches_at(msg@, i2));
                        } else if (i as int) < i2 {
                            assert(!matches_at(msg@, i as int));
                        }
                        assert(i2 == i as int);
                        lemma_fragment_unique(
                            msg@,
                            i as int,
                            j as int,
                            k as int,
                            l as int,
                            j2,
                            k2,
                            l2,
                        );
                    }
                }
                return r;
            }
        } else {
            proof {
                if matches_at(msg@, i as int) {
                    let (j2, k2, l2): (int, int, int) = choose|j2: int, k2: int, l2: int|
                        fragment_bounds(msg@, i as int, j2, k2, l2);
                    assert(msg@[i as int] == '(');
                }
            }
        }
        i += 1;
    }
    proof {
        assert forall|i2: int, j2: int, k2: int, l2: int|
            #[trigger] fragment_bounds(msg@, i2, j2, k2, l2) && no_match_before(msg@, i2) implies
            Range::empty_spec() == fragment_range(msg@, i2, j2, k2, l2) by {
            assert(matches_at(msg@, i2));
            assert(!matches_at(msg@, i2));
        }
        if has_fragment(msg@) {
            let w = choose|w: int| 0 <= w < msg@.len() && matches_at(msg@, w);
            assert(!matches_at(msg@, w));
        }
    }
    Range::empty()
}

} // verus!
