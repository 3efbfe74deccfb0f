//! Splitting an input line into tokens.
//!
//! Tokens are separated by whitespace. A double quote opens a quoted token
//! when a closing quote follows on the same line with at least one character
//! between them; the token is then what stands between the quotes, spaces
//! included. Any other run of non-space characters is one token, with its
//! double quotes removed. There is no escape for a quote inside a quoted token.
use vstd::prelude::*;
use crate::text::{chars_of, char_is_space, is_space};

verus! {

/// The first index from `j` on that holds a double quote or a line feed, or
/// the length of `s`.
pub open spec fn scan_quote(s: Seq<char>, j: int) -> int
    decreases s.len() - j,
{
    if j < 0 || j >= s.len() {
        s.len() as int
    } else if s[j] == '"' || s[j] == '\n' {
        j
    } else {
        scan_quote(s, j + 1)
    }
}

/// The first index from `j` on that holds whitespace, or the length of `s`.
pub open spec fn scan_space(s: Seq<char>, j: int) -> int
    decreases s.len() - j,
{
    if j < 0 || j >= s.len() {
        s.len() as int
    } else if is_space(s[j]) {
        j
    } else {
        scan_space(s, j + 1)
    }
}

/// `t` without its double quotes.
pub open spec fn strip_quotes(t: Seq<char>) -> Seq<char>
    decreases t.len(),
{
    if t.len() == 0 {
        t
    } else if t.last() == '"' {
        strip_quotes(t.drop_last())
    } else {
        strip_quotes(t.drop_last()).push(t.last())
    }
}

/// Whether a quoted token starts at `i`: a quote, one or more characters
/// that are neither quotes nor line feeds, and a closing quote.
pub open spec fn quoted_at(s: Seq<char>, i: int) -> bool {
    &&& 0 <= i < s.len()
    &&& s[i] == '"'
    &&& scan_quote(s, i + 1) < s.len()
    &&& s[scan_quote(s, i + 1)] == '"'
    &&& scan_quote(s, i + 1) > i + 1
}

/// The tokens of `s` from index `i` on.
pub open spec fn tokens_from(s: Seq<char>, i: int) -> Seq<Seq<char>>
    decreases s.len() - i via tokens_from_decreases
{
    if i < 0 || i >= s.len() {
        Seq::empty()
    } else if is_space(s[i]) {
        tokens_from(s, i + 1)
    } else if quoted_at(s, i) {
        let k = scan_quote(s, i + 1);
        seq![s.subrange(i + 1, k)] + tokens_from(s, k + 1)
    } else {
        let w = scan_space(s, i);
        seq![strip_quotes(s.subrange(i, w))] + tokens_from(s, w)
    }
}

/// The tokens of a line.
pub open spec fn tokens(s: Seq<char>) -> Seq<Seq<char>> {
    tokens_from(s, 0)
}

proof fn lemma_scan_space_bounds(s: Seq<char>, j: int)
    requires
        0 <= j <= s.len(),
    ensures
        j <= scan_space(s, j) <= s.len(),
    decreases s.len() - j,
{
    if j < s.len() && !is_space(s[j]) {
        lemma_scan_space_bounds(s, j + 1);
    }
}

proof fn lemma_scan_quote_bounds(s: Seq<char>, j: int)
    requires
        0 <= j <= s.len(),
    ensures
        j <= scan_quote(s, j) <= s.len(),
    decreases s.len() - j,
{
    if j < s.len() && !(s[j] == '"' || s[j] == '\n') {
        lemma_scan_quote_bounds(s, j + 1);
    }
}

#[via_fn]
proof fn tokens_from_decreases(s: Seq<char>, i: int) {
    if 0 <= i < s.len() && !is_space(s[i]) && !quoted_at(s, i) {
        lemma_scan_space_bounds(s, i + 1);
    }
}

/// Splits a line into tokens: the command name first, then its arguments.
/// A line that is empty or all whitespace gives no token.
pub fn tokenize(line: &str) -> (r: Vec<String>)
    ensures
        r@.map_values(|t: String| t@) == tokens(line@),
{
    let cs = chars_of(line);
    let ghost s = line@;
    let n = cs.len();
    let mut out: Vec<String> = Vec::new();
    let mut i: usize = 0;
    while i < n
        invariant
            cs@ == s,
            s == line@,
            n == cs.len(),
            i <= n,
            out@.map_values(|t: String| t@) + tokens_from(s, i as int) == tokens_from(s, 0),
        decreases n - i,
    {
        let ghost before = out@.map_values(|t: String| t@);
        if char_is_space(cs[i]) {
            i = i + 1;
            continue;
        }
        let mut quoted = false;
        let mut k: usize = i + 1;
        if cs[i] == '"' {
            while k < n && cs[k] != '"' && cs[k] != '\n'
                invariant
                    cs@ == s,
                    s == line@,
                    n == cs.len(),
                    i < k <= n,
                    scan_quote(s, i + 1) == scan_quote(s, k as int),
                decreases n - k,
            {
                k = k + 1;
            }
            quoted = k < n && cs[k] == '"' && k > i + 1;
        }
        if quoted {
            assert(quoted_at(s, i as int));
            let t = String::from_str(line.substring_char(i + 1, k));
            out.push(t);
            assert(out@.map_values(|t: String| t@) =~= before.push(s.subrange(i + 1, k as int)));
            assert(tokens_from(s, i as int) == seq![s.subrange(i + 1, k as int)] + tokens_from(s, k + 1));
            assert(before.push(s.subrange(i + 1, k as int)) + tokens_from(s, k + 1) =~= before + tokens_from(s, i as int));
            i = k + 1;
        } else {
            assert(!quoted_at(s, i as int));
            let mut w: usize = i;
            let mut t = String::new();
            while w < n && !char_is_space(cs[w])
                invariant
                    cs@ == s,
                    s == line@,
                    n == cs.len(),
                    i <= w <= n,
                    scan_space(s, i as int) == scan_space(s, w as int),
                    t@ == strip_quotes(s.subrange(i as int, w as int)),
                decreases n - w,
            {
                assert(s.subrange(i as int, w + 1).drop_last() =~= s.subrange(i as int, w as int));
                if cs[w] != '"' {
                    t.append(line.substring_char(w, w + 1));
                    assert(line@.subrange(w as int, w + 1) =~= seq![s[w as int]]);
                }
                w = w + 1;
            }
            assert(scan_space(s, w as int) == w);
            proof {
                lemma_scan_space_bounds(s, i + 1);
            }
            out.push(t);
            assert(out@.map_values(|t: String| t@) =~= before.push(strip_quotes(s.subrange(i as int, w as int))));
            assert(before.push(strip_quotes(s.subrange(i as int, w as int))) + tokens_from(s, w as int) =~= before + tokens_from(s, i as int));
            i = w;
        }
    }
    assert(out@.map_values(|t: String| t@) + tokens_from(s, i as int) =~= out@.map_values(|t: String| t@));
    out
}

} // verus!
