//! Character-level scanning over a line of text, with each scan described
//! by a spec function over the line's characters.
use vstd::prelude::*;

verus! {

/// A blank: a space or a horizontal tab.
pub open spec fn is_blank(c: char) -> bool {
    c == ' ' || c == '\t'
}

pub open spec fn is_digit(c: char) -> bool {
    '0' <= c && c <= '9'
}

/// Index of the first space at or after `i`, or the line's length if none.
pub open spec fn find_space(s: Seq<char>, i: int) -> int
    decreases s.len() - i,
{
    if i < 0 || i >= s.len() {
        s.len() as int
    } else if s[i] == ' ' {
        i
    } else {
        find_space(s, i + 1)
    }
}

/// End of the run of blanks that starts at `i`.
pub open spec fn skip_blanks(s: Seq<char>, i: int) -> int
    decreases s.len() - i,
{
    if i < 0 || i >= s.len() {
        i
    } else if is_blank(s[i]) {
        skip_blanks(s, i + 1)
    } else {
        i
    }
}

/// End of the run of ASCII digits that starts at `i`.
pub open spec fn skip_digits(s: Seq<char>, i: int) -> int
    decreases s.len() - i,
{
    if i < 0 || i >= s.len() {
        i
    } else if is_digit(s[i]) {
        skip_digits(s, i + 1)
    } else {
        i
    }
}

/// End of the run of `*` and `-` markers that starts at `i`.
pub open spec fn skip_markers(s: Seq<char>, i: int) -> int
    decreases s.len() - i,
{
    if i < 0 || i >= s.len() {
        i
    } else if s[i] == '*' || s[i] == '-' {
        skip_markers(s, i + 1)
    } else {
        i
    }
}

/// `lit` stands in `s` at position `i`.
pub open spec fn has_at(s: Seq<char>, i: int, lit: Seq<char>) -> bool {
    0 <= i && i + lit.len() <= s.len() && s.subrange(i, i + lit.len()) == lit
}

pub fn find_space_exec(s: &str, len: usize, i: usize) -> (r: usize)
    requires
        len == s@.len(),
        i <= len,
    ensures
        r == find_space(s@, i as int),
        i <= r <= len,
{
    let mut j = i;
    while j < len
        invariant
            len == s@.len(),
            i <= j <= len,
            find_space(s@, i as int) == find_space(s@, j as int),
        decreases len - j,
    {
        if s.get_char(j) == ' ' {
            return j;
        }
        j = j + 1;
    }
    j
}

pub fn skip_blanks_exec(s: &str, len: usize, i: usize) -> (r: usize)
    requires
        len == s@.len(),
        i <= len,
    ensures
        r == skip_blanks(s@, i as int),
        i <= r <= len,
{
    let mut j = i;
    while j < len
        invariant
            len == s@.len(),
            i <= j <= len,
            skip_blanks(s@, i as int) == skip_blanks(s@, j as int),
        decreases len - j,
    {
        let c = s.get_char(j);
        if c != ' ' && c != '\t' {
            return j;
        }
        j = j + 1;
    }
    j
}

pub fn skip_digits_exec(s: &str, len: usize, i: usize) -> (r: usize)
    requires
        len == s@.len(),
        i <= len,
    ensures
        r == skip_digits(s@, i as int),
        i <= r <= len,
{
    let mut j = i;
    while j < len
        invariant
            len == s@.len(),
            i <= j <= len,
            skip_digits(s@, i as int) == skip_digits(s@, j as int),
        decreases len - j,
    {
        let c = s.get_char(j);
        if !('0' <= c && c <= '9') {
            return j;
        }
        j = j + 1;
    }
    j
}

pub fn skip_markers_exec(s: &str, len: usize, i: usize) -> (r: usize)
    requires
        len == s@.len(),
        i <= len,
    ensures
        r == skip_markers(s@, i as int),
        i <= r <= len,
{
    let mut j = i;
    while j < len
        invariant
            len == s@.len(),
            i <= j <= len,
            skip_markers(s@, i as int) == skip_markers(s@, j as int),
        decreases len - j,
    {
        let c = s.get_char(j);
        if c != '*' && c != '-' {
            return j;
        }
        j = j + 1;
    }
    j
}

pub fn has_at_exec(s: &str, len: usize, i: usize, lit: &str) -> (r: bool)
    requires
        len == s@.len(),
        i <= len,
    ensures
        r == has_at(s@, i as int, lit@),
{
    let n = lit.unicode_len();
    if n > len - i {
        return false;
    }
    let mut k: usize = 0;
    while k < n
        invariant
            len == s@.len(),
            n == lit@.len(),
            i + n <= len,
            k <= n,
            forall|m: int| 0 <= m < k ==> s@[i + m] == lit@[m],
        decreases n - k,
    {
        if s.get_char(i + k) != lit.get_char(k) {
            assert(s@.subrange(i as int, i + n)[k as int] != lit@[k as int]);
            return false;
        }
        k = k + 1;
    }
    assert(s@.subrange(i as int, i + n) =~= lit@);
    true
}

/// The characters of `s` from `from` to `to`, as a new string.
pub fn slice(s: &str, from: usize, to: usize) -> (r: String)
    requires
        from <= to <= s@.len(),
    ensures
        r@ == s@.subrange(from as int, to as int),
{
    s.substring_char(from, to).to_owned()
}

pub proof fn lemma_find_space_at(s: Seq<char>, i: int, k: int)
    requires
        0 <= i <= k <= s.len(),
        forall|j: int| i <= j < k ==> s[j] != ' ',
        k == s.len() || s[k] == ' ',
    ensures
        find_space(s, i) == k,
    decreases k - i,
{
    if i < k {
        lemma_find_space_at(s, i + 1, k);
    }
}

pub proof fn lemma_skip_blanks_at(s: Seq<char>, i: int, k: int)
    requires
        0 <= i <= k <= s.len(),
        forall|j: int| i <= j < k ==> is_blank(s[j]),
        k == s.len() || !is_blank(s[k]),
    ensures
        skip_blanks(s, i) == k,
    decreases k - i,
{
    if i < k {
        lemma_skip_blanks_at(s, i + 1, k);
    }
}

pub proof fn lemma_skip_digits_at(s: Seq<char>, i: int, k: int)
    requires
        0 <= i <= k <= s.len(),
        forall|j: int| i <= j < k ==> is_digit(s[j]),
        k == s.len() || !is_digit(s[k]),
    ensures
        skip_digits(s, i) == k,
    decreases k - i,
{
    if i < k {
        lemma_skip_digits_at(s, i + 1, k);
    }
}

} // verus!
