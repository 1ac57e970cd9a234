//! Character-level helpers shared by the parser, the registry and the mode
//! parser: line splitting, ASCII-whitespace trimming, ASCII lowercasing and
//! scanning for a separator, each as a spec function with a verified (or, for
//! lowercasing, trusted) executable counterpart.

use vstd::prelude::*;

verus! {

/// ASCII whitespace as this library understands it: space, tab, carriage
/// return and line feed.
pub open spec fn is_ws(c: char) -> bool {
    c == ' ' || c == '\t' || c == '\r' || c == '\n'
}

/// ASCII lowercasing of one character: 'A'..'Z' map to 'a'..'z', every other
/// character is unchanged.
pub open spec fn lower_char(c: char) -> char {
    if 'A' <= c && c <= 'Z' {
        (((c as u32) + 32) as char)
    } else {
        c
    }
}

/// ASCII lowercasing of a whole character sequence.
pub open spec fn lower_seq(s: Seq<char>) -> Seq<char> {
    s.map_values(|c: char| lower_char(c))
}

/// Relies on str::to_ascii_lowercase: ASCII letters 'A' to 'Z' are mapped to
/// 'a' to 'z'; all other characters are unchanged.
#[verifier::external_body]
pub(crate) fn ascii_lowercase(s: &str) -> (r: String)
    ensures
        r@ == lower_seq(s@),
{
    s.to_ascii_lowercase()
}

/// Index of the first line feed at or after `i`, or the length of `s` when
/// the rest of the text holds none. The line starting at `i` occupies
/// `[i, line_end(s, i))`.
pub open spec fn line_end(s: Seq<char>, i: int) -> int
    decreases s.len() - i,
{
    if i < 0 || i >= s.len() {
        s.len() as int
    } else if s[i] == '\n' {
        i
    } else {
        line_end(s, i + 1)
    }
}

pub proof fn lemma_line_end_bounds(s: Seq<char>, i: int)
    requires
        0 <= i <= s.len(),
    ensures
        i <= line_end(s, i) <= s.len(),
        line_end(s, i) < s.len() ==> s[line_end(s, i)] == '\n',
        forall|j: int| i <= j < line_end(s, i) ==> s[j] != '\n',
    decreases s.len() - i,
{
    if i < s.len() && s[i] != '\n' {
        lemma_line_end_bounds(s, i + 1);
    }
}

/// First index in `[a, b)` holding a non-whitespace character, or `b`.
pub open spec fn skip_ws_fwd(s: Seq<char>, a: int, b: int) -> int
    decreases b - a,
{
    if a < 0 || a >= b {
        b
    } else if is_ws(s[a]) {
        skip_ws_fwd(s, a + 1, b)
    } else {
        a
    }
}

/// One past the last index in `[a, b)` holding a non-whitespace character,
/// or `a` when the whole range is whitespace.
pub open spec fn skip_ws_back(s: Seq<char>, a: int, b: int) -> int
    decreases b - a,
{
    if b <= a {
        a
    } else if is_ws(s[b - 1]) {
        skip_ws_back(s, a, b - 1)
    } else {
        b
    }
}

pub proof fn lemma_skip_ws_fwd_bounds(s: Seq<char>, a: int, b: int)
    requires
        0 <= a <= b <= s.len(),
    ensures
        a <= skip_ws_fwd(s, a, b) <= b,
        skip_ws_fwd(s, a, b) < b ==> !is_ws(s[skip_ws_fwd(s, a, b)]),
    decreases b - a,
{
    if a < b && is_ws(s[a]) {
        lemma_skip_ws_fwd_bounds(s, a + 1, b);
    }
}

pub proof fn lemma_skip_ws_back_bounds(s: Seq<char>, a: int, b: int)
    requires
        0 <= a <= b <= s.len(),
    ensures
        a <= skip_ws_back(s, a, b) <= b,
    decreases b - a,
{
    if b > a && is_ws(s[b - 1]) {
        lemma_skip_ws_back_bounds(s, a, b - 1);
    }
}

/// The range `[a, b)` of `s` with leading and trailing ASCII whitespace
/// removed.
pub open spec fn trim_range(s: Seq<char>, a: int, b: int) -> Seq<char> {
    let a2 = skip_ws_fwd(s, a, b);
    let b2 = skip_ws_back(s, a2, b);
    s.subrange(a2, b2)
}

/// Index of the first ':' at or after `i`, or the length of `s`.
pub open spec fn first_colon(s: Seq<char>, i: int) -> int
    decreases s.len() - i,
{
    if i < 0 || i >= s.len() {
        s.len() as int
    } else if s[i] == ':' {
        i
    } else {
        first_colon(s, i + 1)
    }
}

pub proof fn lemma_first_colon_bounds(s: Seq<char>, i: int)
    requires
        0 <= i <= s.len(),
    ensures
        i <= first_colon(s, i) <= s.len(),
        first_colon(s, i) < s.len() ==> s[first_colon(s, i)] == ':',
    decreases s.len() - i,
{
    if i < s.len() && s[i] != ':' {
        lemma_first_colon_bounds(s, i + 1);
    }
}

/// Character-count length of `s`, usable wherever the spec-level length is
/// needed alongside executable indices.
pub(crate) fn char_len(s: &str) -> (n: usize)
    ensures
        n == s@.len(),
{
    s.unicode_len()
}

/// Executable counterpart of `line_end`.
pub(crate) fn exec_line_end(s: &str, i: usize) -> (r: usize)
    requires
        i <= s@.len(),
    ensures
        r == line_end(s@, i as int),
        i <= r <= s@.len(),
{
    let n = s.unicode_len();
    let mut j: usize = i;
    loop
        invariant
            i <= j <= n,
            n == s@.len(),
            line_end(s@, i as int) == line_end(s@, j as int),
        decreases n - j,
    {
        if j >= n {
            proof {
                lemma_line_end_bounds(s@, i as int);
            }
            return j;
        }
        let c = s.get_char(j);
        if c == '\n' {
            proof {
                lemma_line_end_bounds(s@, i as int);
            }
            return j;
        }
        j = j + 1;
    }
}

/// Executable counterpart of `trim_range`: the trimmed text of `[a, b)` as a
/// fresh string.
pub(crate) fn exec_trim_range(s: &str, a: usize, b: usize) -> (r: String)
    requires
        a <= b <= s@.len(),
    ensures
        r@ == trim_range(s@, a as int, b as int),
{
    let mut a2: usize = a;
    loop
        invariant
            a <= a2 <= b <= s@.len(),
            skip_ws_fwd(s@, a as int, b as int) == skip_ws_fwd(s@, a2 as int, b as int),
        ensures
            a <= a2 <= b,
            a2 == skip_ws_fwd(s@, a as int, b as int),
        decreases b - a2,
    {
        if a2 >= b {
            break;
        }
        let c = s.get_char(a2);
        if c == ' ' || c == '\t' || c == '\r' || c == '\n' {
            a2 = a2 + 1;
        } else {
            break;
        }
    }
    let mut b2: usize = b;
    loop
        invariant
            a2 <= b2 <= b <= s@.len(),
            a2 == skip_ws_fwd(s@, a as int, b as int),
            skip_ws_back(s@, a2 as int, b as int) == skip_ws_back(s@, a2 as int, b2 as int),
        ensures
            a2 <= b2 <= b,
            b2 == skip_ws_back(s@, a2 as int, b as int),
        decreases b2,
    {
        if b2 <= a2 {
            break;
        }
        let c = s.get_char(b2 - 1);
        if c == ' ' || c == '\t' || c == '\r' || c == '\n' {
            b2 = b2 - 1;
        } else {
            break;
        }
    }
    let piece = s.substring_char(a2, b2);
    String::from_str(piece)
}

/// Executable counterpart of `first_colon`.
pub(crate) fn exec_first_colon(s: &str) -> (r: usize)
    ensures
        r == first_colon(s@, 0),
        r <= s@.len(),
{
    let n = s.unicode_len();
    let mut j: usize = 0;
    loop
        invariant
            j <= n,
            n == s@.len(),
            first_colon(s@, 0) == first_colon(s@, j as int),
        decreases n - j,
    {
        if j >= n {
            proof {
                lemma_first_colon_bounds(s@, 0);
            }
            return j;
        }
        let c = s.get_char(j);
        if c == ':' {
            proof {
                lemma_first_colon_bounds(s@, 0);
            }
            return j;
        }
        j = j + 1;
    }
}

} // verus!
