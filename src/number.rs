//! Integers written as digit strings, in base 10 or 16.
use vstd::prelude::*;

verus! {

pub open spec fn is_digit_in(c: char, radix: int) -> bool {
    ('0' <= c && c <= '9') || (radix == 16 && (('a' <= c && c <= 'f') || ('A' <= c && c <= 'F')))
}

pub open spec fn digit_value(c: char) -> int {
    if '0' <= c && c <= '9' {
        c as int - '0' as int
    } else if 'a' <= c && c <= 'f' {
        c as int - 'a' as int + 10
    } else {
        c as int - 'A' as int + 10
    }
}

pub open spec fn all_digits_in(s: Seq<char>, radix: int) -> bool {
    forall|i: int| 0 <= i < s.len() ==> is_digit_in(#[trigger] s[i], radix)
}

/// The number that the digits of `s` write in base `radix`, most significant first.
pub open spec fn value_in(s: Seq<char>, radix: int) -> int
    decreases s.len(),
{
    if s.len() == 0 {
        0
    } else {
        value_in(s.drop_last(), radix) * radix + digit_value(s.last())
    }
}

/// The value of a non-empty digit string in base `radix`, if it has one.
pub open spec fn unsigned_value(s: Seq<char>, radix: int) -> Option<int> {
    if s.len() > 0 && all_digits_in(s, radix) {
        Some(value_in(s, radix))
    } else {
        None
    }
}

proof fn lemma_value_grows(s: Seq<char>, k: int, radix: int)
    requires
        0 <= k <= s.len(),
        radix == 10 || radix == 16,
        all_digits_in(s, radix),
    ensures
        value_in(s.subrange(0, k), radix) <= value_in(s, radix),
        0 <= value_in(s.subrange(0, k), radix),
    decreases s.len() - k,
{
    if k < s.len() {
        lemma_value_grows(s, k + 1, radix);
        let p = s.subrange(0, k + 1);
        assert(p.drop_last() =~= s.subrange(0, k));
        assert(is_digit_in(s[k], radix));
    } else {
        assert(s.subrange(0, k) =~= s);
        lemma_value_nonneg(s, radix);
    }
}

proof fn lemma_value_nonneg(s: Seq<char>, radix: int)
    requires
        radix == 10 || radix == 16,
        all_digits_in(s, radix),
    ensures
        0 <= value_in(s, radix),
    decreases s.len(),
{
    if s.len() > 0 {
        lemma_value_nonneg(s.drop_last(), radix);
        assert(is_digit_in(s[s.len() - 1], radix));
    }
}

/// Why a digit string has no value in range.
pub enum DigitsError {
    Empty,
    InvalidDigit,
    Overflow,
}

impl DigitsError {
    pub fn message(&self) -> String {
        match self {
            DigitsError::Empty => "cannot parse integer from empty string".to_owned(),
            DigitsError::InvalidDigit => "invalid digit found in string".to_owned(),
            DigitsError::Overflow => "number too large to fit in target type".to_owned(),
        }
    }
}

/// Reads the characters of `s` from `from` to its end as an unsigned number in
/// base `radix`, up to `max`.
pub fn parse_unsigned(s: &str, from: usize, radix: u64, max: u64) -> (r: Result<u64, DigitsError>)
    requires
        radix == 10 || radix == 16,
        from <= s@.len(),
    ensures
        r is Ok <==> (unsigned_value(s@.subrange(from as int, s@.len() as int), radix as int) is Some
            && unsigned_value(s@.subrange(from as int, s@.len() as int), radix as int)->0 <= max),
        r is Ok ==> r->Ok_0 == unsigned_value(
            s@.subrange(from as int, s@.len() as int),
            radix as int,
        )->0,
{
    let len = s.unicode_len();
    if from == len {
        return Err(DigitsError::Empty);
    }
    let ghost t = s@.subrange(from as int, len as int);
    let mut k: usize = from;
    while k < len
        invariant
            len == s@.len(),
            from <= k <= len,
            t == s@.subrange(from as int, len as int),
            radix == 10 || radix == 16,
            forall|i: int| 0 <= i < k - from ==> is_digit_in(#[trigger] t[i], radix as int),
        decreases len - k,
    {
        let c = s.get_char(k);
        let ok = ('0' <= c && c <= '9') || (radix == 16 && (('a' <= c && c <= 'f') || ('A' <= c
            && c <= 'F')));
        if !ok {
            assert(t[k - from] == c);
            return Err(DigitsError::InvalidDigit);
        }
        k = k + 1;
    }
    assert(all_digits_in(t, radix as int));
    let mut acc: u64 = 0;
    let mut k: usize = from;
    while k < len
        invariant
            len == s@.len(),
            from <= k <= len,
            t == s@.subrange(from as int, len as int),
            radix == 10 || radix == 16,
            all_digits_in(t, radix as int),
            acc as int == value_in(t.subrange(0, k - from), radix as int),
            acc <= max,
        decreases len - k,
    {
        let c = s.get_char(k);
        assert(t[k - from] == c);
        assert(is_digit_in(c, radix as int));
        let d: u64 = if '0' <= c && c <= '9' {
            (c as u32 - '0' as u32) as u64
        } else if 'a' <= c && c <= 'f' {
            (c as u32 - 'a' as u32 + 10) as u64
        } else {
            (c as u32 - 'A' as u32 + 10) as u64
        };
        proof {
            assert(t[k - from] == c);
            assert(is_digit_in(c, radix as int));
            let p = t.subrange(0, k - from + 1);
            assert(p.drop_last() =~= t.subrange(0, k - from));
            assert(p.last() == c);
            assert(d < radix);
        }
        if d > max {
            proof {
                lemma_value_grows(t, k - from + 1, radix as int);
                assert(acc * radix + d > max) by (nonlinear_arith)
                    requires
                        d > max,
                        radix > 0,
                ;
            }
            return Err(DigitsError::Overflow);
        }
        let lim: u64 = (max - d) / radix;
        if acc > lim {
            proof {
                lemma_value_grows(t, k - from + 1, radix as int);
                assert(acc * radix + d > max) by (nonlinear_arith)
                    requires
                        acc > lim,
                        lim as int == (max as int - d as int) / (radix as int),
                        radix > 0,
                        d <= max,
                ;
            }
            return Err(DigitsError::Overflow);
        }
        proof {
            assert(acc * radix + d <= max) by (nonlinear_arith)
                requires
                    acc <= lim,
                    lim as int == (max as int - d as int) / (radix as int),
                    radix > 0,
                    d <= max,
            ;
        }
        acc = acc * radix + d;
        k = k + 1;
    }
    assert(t.subrange(0, len - from) =~= t);
    Ok(acc)
}

} // verus!
