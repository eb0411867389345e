//! Small facts about bytes of text: digits, decimal numbers, UTF-8.
use vstd::prelude::*;
use vstd::utf8::{decode_utf8, valid_utf8};

verus! {

pub open spec fn is_digit(b: u8) -> bool {
    48 <= b <= 57
}

/// The index after the run of digits that starts at `i`.
pub open spec fn digits_end(s: Seq<u8>, i: int) -> int
    decreases s.len() - i,
{
    if 0 <= i < s.len() && is_digit(s[i]) {
        digits_end(s, i + 1)
    } else {
        i
    }
}

/// The value of a sequence of decimal digits.
pub open spec fn decimal(s: Seq<u8>) -> nat
    decreases s.len(),
{
    if s.len() == 0 {
        0
    } else {
        decimal(s.drop_last()) * 10 + (s.last() - 48) as nat
    }
}

/// The decimal digits of `n`, without leading zeros.
pub open spec fn decimal_bytes(n: nat) -> Seq<u8>
    decreases n,
{
    if n < 10 {
        seq![(48 + n) as u8]
    } else {
        decimal_bytes(n / 10).push((48 + n % 10) as u8)
    }
}

/// A number of one to five digits at `i`, no larger than `max`: its value
/// and the index after it.
pub open spec fn number_at(s: Seq<u8>, i: int, max: nat) -> Option<(nat, int)> {
    let j = digits_end(s, i);
    if i < j && j - i <= 5 && decimal(s.subrange(i, j)) <= max {
        Some((decimal(s.subrange(i, j)), j))
    } else {
        None
    }
}

proof fn lemma_digits_end_bounds(s: Seq<u8>, i: int)
    requires
        0 <= i <= s.len(),
    ensures
        i <= digits_end(s, i) <= s.len(),
    decreases s.len() - i,
{
    if i < s.len() && is_digit(s[i]) {
        lemma_digits_end_bounds(s, i + 1);
    }
}

/// Reads the number that `number_at` describes.
pub fn read_number(s: &Vec<u8>, i: usize, max: u64) -> (r: Option<(u64, usize)>)
    requires
        i <= s@.len(),
    ensures
        match number_at(s@, i as int, max as nat) {
            Some((v, j)) => r == Some((v as u64, j as usize)),
            None => r is None,
        },
        r matches Some((_, j)) ==> i < j <= s@.len(),
{
    proof {
        lemma_digits_end_bounds(s@, i as int);
    }
    let mut k: usize = i;
    let mut v: u64 = 0;
    let mut lim: u64 = 1;
    while k < s.len() && 48 <= s[k] && s[k] <= 57
        invariant
            i <= k <= s@.len(),
            k - i <= 5,
            digits_end(s@, i as int) == digits_end(s@, k as int),
            v == decimal(s@.subrange(i as int, k as int)),
            v < lim,
            lim == 1 && k - i == 0 || lim == 10 && k - i == 1 || lim == 100 && k - i == 2
                || lim == 1000 && k - i == 3 || lim == 10000 && k - i == 4
                || lim == 100000 && k - i == 5,
        decreases s@.len() - k,
    {
        if k - i == 5 {
            proof {
                lemma_digits_end_bounds(s@, k as int + 1);
            }
            return None;
        }
        let d = (s[k] - 48) as u64;
        assert(s@.subrange(i as int, k + 1).drop_last() =~= s@.subrange(i as int, k as int));
        assert(v * 10 + d < lim * 10) by (nonlinear_arith)
            requires
                v < lim,
                d < 10,
        ;
        v = v * 10 + d;
        lim = lim * 10;
        k = k + 1;
    }
    if k == i || v > max {
        None
    } else {
        Some((v, k))
    }
}

/// Appends the decimal digits of `n`.
pub fn push_decimal(out: &mut Vec<u8>, n: u64)
    ensures
        final(out)@ == old(out)@ + decimal_bytes(n as nat),
    decreases n,
{
    if n >= 10 {
        push_decimal(out, n / 10);
    }
    out.push((48 + n % 10) as u8);
    proof {
        if n >= 10 {
            assert(old(out)@ + decimal_bytes(n as nat) =~= old(out)@ + decimal_bytes((n / 10) as nat)
                + seq![(48 + n % 10) as u8]);
        }
    }
}

/// Copies `s[a..b]`.
pub fn copy_range(s: &Vec<u8>, a: usize, b: usize) -> (r: Vec<u8>)
    requires
        a <= b <= s@.len(),
    ensures
        r@ == s@.subrange(a as int, b as int),
{
    let mut r: Vec<u8> = Vec::new();
    let mut k: usize = a;
    while k < b
        invariant
            a <= k <= b <= s@.len(),
            r@ == s@.subrange(a as int, k as int),
        decreases b - k,
    {
        r.push(s[k]);
        k = k + 1;
    }
    r
}

/// Relies on `std::str::from_utf8`: it succeeds exactly on valid UTF-8, and
/// the text then holds the characters that the bytes encode.
#[verifier::external_body]
pub(crate) fn utf8_text(b: &[u8]) -> (r: Option<String>)
    ensures
        r is Some <==> valid_utf8(b@),
        r matches Some(t) ==> t@ == decode_utf8(b@),
{
    std::str::from_utf8(b).ok().map(|t| t.to_string())
}

} // verus!
