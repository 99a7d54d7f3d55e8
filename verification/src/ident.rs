//! Derivation of the stable payment identifier: the decimal rendering of a
//! UTC timestamp (seconds) followed by the contributor identifier.

use vstd::prelude::*;

verus! {

/// The character for one decimal digit value.
pub open spec fn digit_to_char(d: int) -> char {
    if d == 0 {
        '0'
    } else if d == 1 {
        '1'
    } else if d == 2 {
        '2'
    } else if d == 3 {
        '3'
    } else if d == 4 {
        '4'
    } else if d == 5 {
        '5'
    } else if d == 6 {
        '6'
    } else if d == 7 {
        '7'
    } else if d == 8 {
        '8'
    } else {
        '9'
    }
}

/// Decimal digits of a non-negative number, most significant first, with no
/// leading zero (a single '0' for zero).
pub open spec fn dec_digits(n: nat) -> Seq<char>
    decreases n,
{
    if n < 10 {
        seq![digit_to_char(n as int)]
    } else {
        dec_digits(n / 10) + seq![digit_to_char((n % 10) as int)]
    }
}

/// Decimal rendering of an integer: a '-' sign for negatives, then the digits.
pub open spec fn dec_string(n: int) -> Seq<char> {
    if n < 0 {
        seq!['-'] + dec_digits((-n) as nat)
    } else {
        dec_digits(n as nat)
    }
}

/// The stable payment identifier for a timestamp (UTC seconds) and a
/// contributor identifier: the timestamp's decimal rendering followed by the
/// identifier. A pure function of its two inputs, so re-deriving it for the
/// same transaction always yields the same key.
pub open spec fn payment_id_spec(timestamp_secs: int, contributor_id: Seq<char>) -> Seq<char> {
    dec_string(timestamp_secs) + contributor_id
}

/// Whether a character is one of the ten decimal digit characters.
pub open spec fn is_digit_char(c: char) -> bool {
    c == '0' || c == '1' || c == '2' || c == '3' || c == '4' || c == '5' || c == '6' || c == '7'
        || c == '8' || c == '9'
}

proof fn lemma_dec_digits_first_is_digit(n: nat)
    ensures
        dec_digits(n).len() >= 1,
        is_digit_char(dec_digits(n)[0]),
    decreases n,
{
    if n >= 10 {
        lemma_dec_digits_first_is_digit(n / 10);
        assert(dec_digits(n)[0] == dec_digits(n / 10)[0]);
    }
}

proof fn lemma_dec_digits_injective(n1: nat, n2: nat)
    requires
        dec_digits(n1) == dec_digits(n2),
    ensures
        n1 == n2,
    decreases n1,
{
    lemma_dec_digits_first_is_digit(n1 / 10);
    lemma_dec_digits_first_is_digit(n2 / 10);
    if n1 < 10 && n2 < 10 {
        assert(dec_digits(n1)[0] == digit_to_char(n1 as int));
        assert(dec_digits(n2)[0] == digit_to_char(n2 as int));
    } else if n1 < 10 {
        assert(dec_digits(n1).len() == 1);
        assert(dec_digits(n2).len() == dec_digits(n2 / 10).len() + 1);
    } else if n2 < 10 {
        assert(dec_digits(n2).len() == 1);
        assert(dec_digits(n1).len() == dec_digits(n1 / 10).len() + 1);
    } else {
        assert(dec_digits(n1).last() == digit_to_char((n1 % 10) as int));
        assert(dec_digits(n2).last() == digit_to_char((n2 % 10) as int));
        assert(n1 % 10 == n2 % 10);
        assert(dec_digits(n1).drop_last() =~= dec_digits(n1 / 10));
        assert(dec_digits(n2).drop_last() =~= dec_digits(n2 / 10));
        lemma_dec_digits_injective(n1 / 10, n2 / 10);
    }
}

proof fn lemma_dec_string_injective(a: int, b: int)
    requires
        dec_string(a) == dec_string(b),
    ensures
        a == b,
{
    lemma_dec_digits_first_is_digit((if a < 0 {
        -a
    } else {
        a
    }) as nat);
    lemma_dec_digits_first_is_digit((if b < 0 {
        -b
    } else {
        b
    }) as nat);
    if a < 0 && b < 0 {
        assert(dec_string(a).skip(1) =~= dec_digits((-a) as nat));
        assert(dec_string(b).skip(1) =~= dec_digits((-b) as nat));
        lemma_dec_digits_injective((-a) as nat, (-b) as nat);
    } else if a >= 0 && b >= 0 {
        lemma_dec_digits_injective(a as nat, b as nat);
    } else if a < 0 {
        assert(dec_string(a)[0] == '-');
        assert(is_digit_char(dec_string(b)[0]));
    } else {
        assert(dec_string(b)[0] == '-');
        assert(is_digit_char(dec_string(a)[0]));
    }
}

/// Law: the stable payment identifier is a pure function of the timestamp and
/// the contributor identifier, and it separates them as far as the encoding
/// can promise: two identifiers that agree, for the same contributor or for
/// the same timestamp, come from the same (timestamp, contributor) pair.
pub proof fn lemma_payment_id_injective(t1: int, c1: Seq<char>, t2: int, c2: Seq<char>)
    requires
        payment_id_spec(t1, c1) == payment_id_spec(t2, c2),
        t1 == t2 || c1 == c2,
    ensures
        t1 == t2,
        c1 == c2,
{
    let d1 = dec_string(t1);
    let d2 = dec_string(t2);
    if t1 == t2 {
        assert((d1 + c1).len() == (d2 + c2).len());
        assert(c1.len() == c2.len());
        assert(c1 =~= c2) by {
            assert forall|i: int| 0 <= i < c1.len() implies c1[i] == c2[i] by {
                assert((d1 + c1)[d1.len() + i] == c1[i]);
                assert((d2 + c2)[d2.len() + i] == c2[i]);
            }
        }
    } else {
        assert((d1 + c1).len() == (d2 + c2).len());
        assert(d1.len() == d2.len());
        assert(d1 =~= d2) by {
            assert forall|i: int| 0 <= i < d1.len() implies d1[i] == d2[i] by {
                assert((d1 + c1)[i] == d1[i]);
                assert((d2 + c2)[i] == d2[i]);
            }
        }
        lemma_dec_string_injective(t1, t2);
    }
}

fn digit_str(d: u64) -> (r: &'static str)
    requires
        d < 10,
    ensures
        r@ =~= seq![digit_to_char(d as int)],
{
    proof {
        reveal_strlit("0");
        reveal_strlit("1");
        reveal_strlit("2");
        reveal_strlit("3");
        reveal_strlit("4");
        reveal_strlit("5");
        reveal_strlit("6");
        reveal_strlit("7");
        reveal_strlit("8");
        reveal_strlit("9");
    }
    if d == 0 {
        "0"
    } else if d == 1 {
        "1"
    } else if d == 2 {
        "2"
    } else if d == 3 {
        "3"
    } else if d == 4 {
        "4"
    } else if d == 5 {
        "5"
    } else if d == 6 {
        "6"
    } else if d == 7 {
        "7"
    } else if d == 8 {
        "8"
    } else {
        "9"
    }
}

fn u64_to_dec(n: u64) -> (r: String)
    ensures
        r@ == dec_digits(n as nat),
    decreases n,
{
    if n < 10 {
        digit_str(n).to_owned()
    } else {
        let mut r = u64_to_dec(n / 10);
        r.append(digit_str(n % 10));
        assert(r@ == dec_digits(n as nat));
        r
    }
}

/// The decimal rendering of a signed number, as executable code.
pub fn i64_to_dec(n: i64) -> (r: String)
    ensures
        r@ == dec_string(n as int),
{
    if n < 0 {
        let magnitude: u64 = (-(n as i128)) as u64;
        proof {
            reveal_strlit("-");
        }
        let mut r = "-".to_owned();
        let digits = u64_to_dec(magnitude);
        r.append(digits.as_str());
        assert(r@ == dec_string(n as int));
        r
    } else {
        u64_to_dec(n as u64)
    }
}

/// The stable payment identifier, as executable code: deterministic in the
/// timestamp and the contributor identifier.
pub fn derive_payment_id(timestamp_secs: i64, contributor_id: &str) -> (r: String)
    ensures
        r@ == payment_id_spec(timestamp_secs as int, contributor_id@),
{
    let mut r = i64_to_dec(timestamp_secs);
    r.append(contributor_id);
    r
}

} // verus!
