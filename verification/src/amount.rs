//! Parsing of a monetary amount's decimal text into whole cents.
//!
//! Remote amounts arrive as JSON number text (for example `100.0`, `5.25`,
//! `-3`). The store keeps cents, so the parser accepts an optional sign, an
//! integer part, and an optional fractional part, and keeps the first two
//! fractional digits (cent precision; finer digits are discarded). The integer
//! part is capped at [`MAX_AMOUNT_DIGITS`] digits so that every accepted
//! amount fits in an `i64` of cents. A scientific form denoting less than a
//! cent (how JSON renders such floats, for example `1e-6`) counts as zero
//! cents, just as sub-cent digits written decimally do.

use vstd::prelude::*;

verus! {

/// The most integer-part digits an amount may have: any accepted amount is
/// then below 10^16 units, i.e. below 10^18 cents, which fits in an `i64`.
pub const MAX_AMOUNT_DIGITS: usize = 16;

/// Whether a byte is an ASCII decimal digit.
pub open spec fn is_digit(b: u8) -> bool {
    48 <= b <= 57
}

/// The value of an ASCII decimal digit byte.
pub open spec fn digit_val(b: u8) -> int {
    b - 48
}

/// Whether every byte of the sequence is an ASCII decimal digit.
pub open spec fn all_digits(s: Seq<u8>) -> bool {
    forall|i: int| 0 <= i < s.len() ==> is_digit(s[i])
}

/// The number denoted by a sequence of decimal digit bytes (0 when empty).
pub open spec fn digits_val(s: Seq<u8>) -> int
    decreases s.len(),
{
    if s.len() == 0 {
        0
    } else {
        digits_val(s.drop_last()) * 10 + digit_val(s.last())
    }
}

/// The length of the longest digit-only prefix of the sequence.
pub open spec fn digit_prefix_len(s: Seq<u8>) -> int
    decreases s.len(),
{
    if s.len() == 0 || !is_digit(s[0]) {
        0
    } else {
        1 + digit_prefix_len(s.skip(1))
    }
}

/// The cents denoted by a fractional part: the first two digits, the second
/// taken as zero when absent; digits beyond the second are discarded.
pub open spec fn frac_cents(f: Seq<u8>) -> int {
    if f.len() == 0 {
        0
    } else if f.len() == 1 {
        digit_val(f[0]) * 10
    } else {
        digit_val(f[0]) * 10 + digit_val(f[1])
    }
}

/// Whether exponent-suffix text (what follows the 'e') denotes an exponent
/// of minus three or lower: a minus sign, then digits with value at least
/// three. A number with a one-digit integer part and such an exponent lies
/// below a cent in magnitude.
pub open spec fn exp_is_sub_cent(t: Seq<u8>) -> bool {
    t.len() >= 2 && t[0] == 45 && all_digits(t.skip(1)) && digits_val(t.skip(1)) >= 3
}

/// The cents denoted by unsigned amount text: a non-empty integer part of at
/// most [`MAX_AMOUNT_DIGITS`] digits, optionally followed by a dot and a
/// non-empty digit-led fractional part. A scientific form — a one-digit
/// integer part, an optional fraction, and a sub-cent exponent (how floats
/// below a cent print) — denotes zero cents, as sub-cent digits written
/// decimally also round down to zero. `None` for any other shape.
pub open spec fn unsigned_cents(s: Seq<u8>) -> Option<int> {
    let k = digit_prefix_len(s);
    if k == 0 || k > MAX_AMOUNT_DIGITS {
        None
    } else if k == s.len() {
        Some(digits_val(s.take(k)) * 100)
    } else if s[k] == 101 && k == 1 && exp_is_sub_cent(s.skip(k + 1)) {
        Some(0)
    } else if s[k] == 46 && s.len() > k + 1 {
        let f = s.skip(k + 1);
        let m = digit_prefix_len(f);
        if m == 0 {
            None
        } else if m == f.len() {
            Some(digits_val(s.take(k)) * 100 + frac_cents(f))
        } else if f[m] == 101 && k == 1 && exp_is_sub_cent(f.skip(m + 1)) {
            Some(0)
        } else {
            None
        }
    } else {
        None
    }
}

/// The cents denoted by amount text, with an optional leading minus sign.
pub open spec fn amount_cents_of(s: Seq<u8>) -> Option<int> {
    if s.len() > 0 && s[0] == 45 {
        match unsigned_cents(s.skip(1)) {
            Some(v) => Some(-v),
            None => None,
        }
    } else {
        unsigned_cents(s)
    }
}

/// 10 to the given power.
pub open spec fn pow10(n: nat) -> int
    decreases n,
{
    if n == 0 {
        1
    } else {
        10 * pow10((n - 1) as nat)
    }
}

proof fn lemma_digits_val_bound(s: Seq<u8>)
    requires
        all_digits(s),
    ensures
        0 <= digits_val(s) < pow10(s.len()),
    decreases s.len(),
{
    if s.len() > 0 {
        assert(all_digits(s.drop_last()));
        lemma_digits_val_bound(s.drop_last());
    }
}

proof fn lemma_digit_prefix_len_eq(s: Seq<u8>, j: int)
    requires
        0 <= j <= s.len(),
        forall|i: int| 0 <= i < j ==> is_digit(s[i]),
        j == s.len() || !is_digit(s[j]),
    ensures
        digit_prefix_len(s) == j,
    decreases j,
{
    if j == 0 {
    } else {
        assert(is_digit(s[0]));
        lemma_digit_prefix_len_eq(s.skip(1), j - 1);
    }
}

fn exp_sub_cent(s: &[u8], from: usize) -> (r: bool)
    requires
        from <= s@.len(),
    ensures
        r == exp_is_sub_cent(s@.skip(from as int)),
{
    let n = s.len();
    let ghost t: Seq<u8> = s@.skip(from as int);
    assert(forall|m: int| 0 <= m < t.len() ==> #[trigger] t[m] == s@[from + m]);
    if n - from < 2 {
        return false;
    }
    if s[from] != 45 {
        return false;
    }
    let mut j: usize = from + 1;
    let mut val: u32 = 0;
    while j < n
        invariant
            from + 1 <= j <= n,
            n == s@.len(),
            t =~= s@.skip(from as int),
            forall|m: int| from + 1 <= m < j ==> is_digit(s@[m]),
            all_digits(s@.subrange(from + 1, j as int)),
            digits_val(s@.subrange(from + 1, j as int)) < 100 ==> val == digits_val(
                s@.subrange(from + 1, j as int),
            ),
            digits_val(s@.subrange(from + 1, j as int)) >= 100 ==> val >= 100,
            val <= 999,
        decreases n - j,
    {
        let b = s[j];
        if !(48 <= b && b <= 57) {
            proof {
                assert(t.skip(1)[j - (from + 1)] == t[j - from]);
                assert(t[j - from] == s@[j as int]);
            }
            return false;
        }
        proof {
            let prefix = s@.subrange(from + 1, j as int);
            let next = s@.subrange(from + 1, j + 1 as int);
            assert(next.drop_last() =~= prefix);
            assert(next.last() == s@[j as int]);
            assert(all_digits(next));
            lemma_digits_val_bound(prefix);
        }
        if val < 100 {
            val = val * 10 + ((b - 48) as u32);
        }
        j = j + 1;
    }
    proof {
        assert(t.skip(1) =~= s@.subrange(from + 1, n as int));
    }
    val >= 3
}

#[verifier::rlimit(50)]
fn parse_unsigned_cents(s: &[u8], start: usize) -> (r: Option<u64>)
    requires
        start <= s@.len(),
    ensures
        match unsigned_cents(s@.skip(start as int)) {
            Some(v) => r matches Some(c) && c as int == v && c <= 999999999999999999,
            None => r is None,
        },
{
    let n = s.len();
    let ghost t: Seq<u8> = s@.skip(start as int);
    assert(forall|i: int| 0 <= i < t.len() ==> t[i] == s@[start + i]);

    // Scan the digit-only prefix of the unsigned part.
    let mut k: usize = start;
    while k < n && 48 <= s[k] && s[k] <= 57
        invariant
            start <= k <= n,
            n == s@.len(),
            start <= n,
            t =~= s@.skip(start as int),
            forall|i: int| start <= i < k ==> is_digit(s@[i]),
        decreases n - k,
    {
        k = k + 1;
    }
    proof {
        assert(forall|i: int| 0 <= i < k - start ==> is_digit(t[i]));
        assert(k == n || !is_digit(t[k - start]));
        lemma_digit_prefix_len_eq(t, k - start);
    }

    if k == start || k - start > MAX_AMOUNT_DIGITS {
        return None;
    }

    // Accumulate the integer part's value.
    let mut acc: u64 = 0;
    let mut i: usize = start;
    while i < k
        invariant
            start <= i <= k <= n,
            n == s@.len(),
            k - start <= MAX_AMOUNT_DIGITS,
            forall|j: int| start <= j < k ==> is_digit(s@[j]),
            all_digits(s@.subrange(start as int, i as int)),
            acc == digits_val(s@.subrange(start as int, i as int)),
            0 <= acc < pow10((i - start) as nat),
        decreases k - i,
    {
        let d = s[i];
        proof {
            let prefix = s@.subrange(start as int, i as int);
            let next = s@.subrange(start as int, i + 1 as int);
            assert(next.drop_last() =~= prefix);
            assert(next.last() == s@[i as int]);
            assert(all_digits(next));
            lemma_digits_val_bound(next);
            assert(pow10((i + 1 - start) as nat) == 10 * pow10((i - start) as nat));
            lemma_pow10_le(( i + 1 - start) as nat, MAX_AMOUNT_DIGITS as nat);
            assert(pow10(MAX_AMOUNT_DIGITS as nat) == 10000000000000000) by {
                reveal_with_fuel(pow10, 17);
            }
        }
        acc = acc * 10 + ((d - 48) as u64);
        i = i + 1;
    }
    proof {
        assert(s@.subrange(start as int, k as int) =~= t.take(k - start));
        lemma_pow10_le((k - start) as nat, MAX_AMOUNT_DIGITS as nat);
        assert(pow10(MAX_AMOUNT_DIGITS as nat) == 10000000000000000) by {
            reveal_with_fuel(pow10, 17);
        }
        assert(acc < 10000000000000000);
    }

    // What follows the integer part: nothing, a sub-cent exponent, or a dot
    // and a fraction, itself possibly followed by a sub-cent exponent; the
    // fraction's first two digits carry cent value.
    let cents_frac: u64;
    if k == n {
        cents_frac = 0;
        assert(unsigned_cents(t) == Some(digits_val(t.take(k - start)) * 100));
    } else if s[k] == 101 {
        proof {
            assert(t[k - start] == s@[k as int]);
        }
        let sub_cent = k - start == 1 && exp_sub_cent(s, k + 1);
        proof {
            assert(t.skip(k - start + 1) =~= s@.skip(k + 1));
        }
        if sub_cent {
            assert(unsigned_cents(t) == Some(0int));
            return Some(0);
        } else {
            return None;
        }
    } else if s[k] == 46 && k + 1 < n {
        // Scan the fraction's digit prefix.
        let mut j: usize = k + 1;
        while j < n && 48 <= s[j] && s[j] <= 57
            invariant
                start <= k < n,
                k + 1 <= j <= n,
                n == s@.len(),
                forall|m: int| k + 1 <= m < j ==> is_digit(s@[m]),
            decreases n - j,
        {
            j = j + 1;
        }
        let ghost f: Seq<u8> = t.skip(k - start + 1);
        proof {
            assert(forall|m: int| 0 <= m < f.len() ==> #[trigger] f[m] == s@[m + k + 1]);
            assert(j == n || !is_digit(f[j - (k + 1)]));
            lemma_digit_prefix_len_eq(f, j - (k + 1));
            assert(t[k - start] == s@[k as int]);
        }
        if j == k + 1 {
            return None;
        }
        if j == n {
            let d1 = s[k + 1];
            let f1: u64 = ((d1 - 48) as u64) * 10;
            if k + 2 < n {
                let d2 = s[k + 2];
                cents_frac = f1 + ((d2 - 48) as u64);
            } else {
                cents_frac = f1;
            }
            proof {
                assert(f[0] == s@[k + 1 as int]);
                if k + 2 < n {
                    assert(f[1] == s@[k + 2 as int]);
                }
                assert(cents_frac == frac_cents(f));
            }
        } else if s[j] == 101 {
            proof {
                assert(f[j - (k + 1)] == s@[j as int]);
            }
            let sub_cent = k - start == 1 && exp_sub_cent(s, j + 1);
            proof {
                assert(f.skip(j - (k + 1) + 1) =~= s@.skip(j + 1));
            }
            if sub_cent {
                assert(unsigned_cents(t) == Some(0int));
                return Some(0);
            } else {
                return None;
            }
        } else {
            proof {
                assert(f[j - (k + 1)] == s@[j as int]);
            }
            return None;
        }
    } else {
        proof {
            if k < n {
                assert(t[k - start] == s@[k as int]);
            }
        }
        return None;
    }

    let cents: u64 = acc * 100 + cents_frac;
    Some(cents)
}

/// Parses amount text into cents, exactly as [`amount_cents_of`] says:
/// `Some` cents for well-shaped text, `None` otherwise.
pub fn parse_amount_cents(s: &[u8]) -> (r: Option<i64>)
    ensures
        match amount_cents_of(s@) {
            Some(v) => r matches Some(c) && c as int == v,
            None => r is None,
        },
{
    let n = s.len();
    let neg = n > 0 && s[0] == 45;
    let start: usize = if neg { 1 } else { 0 };
    proof {
        if neg {
            assert(s@.skip(start as int) =~= s@.skip(1));
        } else {
            assert(s@.skip(start as int) =~= s@);
        }
    }
    match parse_unsigned_cents(s, start) {
        Some(c) => if neg {
            Some(-(c as i64))
        } else {
            Some(c as i64)
        },
        None => None,
    }
}

proof fn lemma_pow10_pos(a: nat)
    ensures
        pow10(a) >= 1,
    decreases a,
{
    if a > 0 {
        lemma_pow10_pos((a - 1) as nat);
    }
}

proof fn lemma_pow10_le(a: nat, b: nat)
    requires
        a <= b,
    ensures
        pow10(a) <= pow10(b),
        pow10(a) >= 1,
    decreases b,
{
    if a == b {
        lemma_pow10_pos(a);
    } else {
        lemma_pow10_le(a, (b - 1) as nat);
        assert(pow10(b) == 10 * pow10((b - 1) as nat));
    }
}

} // verus!
