//! Small verified text helpers: decimal rendering of integers (used by the
//! identity-key derivation) and trimming of identifier strings.

use vstd::prelude::*;

verus! {

/// The decimal digit character for a value in `0..=9`.
pub open spec fn digit_char(d: int) -> char {
    if d == 0 {
        '0'
    } else if d == 1 {
        '1'
    } else if d == 2 {
        '2'
    } else if d == 3 {
        '3'
    } else if d == 4 {
        '4'
    } else if d == 5 {
        '5'
    } else if d == 6 {
        '6'
    } else if d == 7 {
        '7'
    } else if d == 8 {
        '8'
    } else {
        '9'
    }
}

/// The decimal rendering of a natural number, most significant digit first.
pub open spec fn dec_nat(n: nat) -> Seq<char>
    decreases n,
{
    if n < 10 {
        seq![digit_char(n as int)]
    } else {
        dec_nat(n / 10).push(digit_char((n % 10) as int))
    }
}

/// The decimal rendering of an integer: a minus sign before the magnitude
/// when the value is negative.
pub open spec fn dec_int(n: int) -> Seq<char> {
    if n < 0 {
        seq!['-'] + dec_nat((-n) as nat)
    } else {
        dec_nat(n as nat)
    }
}

/// A decimal rendering is non-empty and holds neither a separator colon
/// nor a minus sign.
pub proof fn lemma_dec_nat_plain(n: nat)
    ensures
        dec_nat(n).len() >= 1,
        forall|i: int|
            0 <= i < dec_nat(n).len() ==> #[trigger] dec_nat(n)[i] != ':' && dec_nat(n)[i] != '-',
    decreases n,
{
    if n >= 10 {
        lemma_dec_nat_plain(n / 10);
    }
}

/// Distinct digits render to distinct characters.
proof fn lemma_digit_char_injective(d1: int, d2: int)
    requires
        0 <= d1 < 10,
        0 <= d2 < 10,
        digit_char(d1) == digit_char(d2),
    ensures
        d1 == d2,
{
}

/// Distinct naturals render to distinct decimals.
pub proof fn lemma_dec_nat_injective(n1: nat, n2: nat)
    requires
        dec_nat(n1) == dec_nat(n2),
    ensures
        n1 == n2,
    decreases n1,
{
    if n1 < 10 && n2 < 10 {
        assert(dec_nat(n1)[0] == digit_char(n1 as int));
        assert(dec_nat(n2)[0] == digit_char(n2 as int));
        lemma_digit_char_injective(n1 as int, n2 as int);
    } else if n1 >= 10 && n2 >= 10 {
        assert(dec_nat(n1).last() == digit_char((n1 % 10) as int));
        assert(dec_nat(n2).last() == digit_char((n2 % 10) as int));
        lemma_digit_char_injective((n1 % 10) as int, (n2 % 10) as int);
        assert(dec_nat(n1 / 10) =~= dec_nat(n1).drop_last());
        assert(dec_nat(n2 / 10) =~= dec_nat(n2).drop_last());
        lemma_dec_nat_injective(n1 / 10, n2 / 10);
        assert(n1 == 10 * (n1 / 10) + n1 % 10) by (nonlinear_arith);
        assert(n2 == 10 * (n2 / 10) + n2 % 10) by (nonlinear_arith);
    } else if n1 < 10 {
        lemma_dec_nat_plain(n2 / 10);
        assert(dec_nat(n2).len() >= 2);
        assert(false);
    } else {
        lemma_dec_nat_plain(n1 / 10);
        assert(dec_nat(n1).len() >= 2);
        assert(false);
    }
}

/// A signed decimal rendering never holds a separator colon.
pub proof fn lemma_dec_int_plain(n: int)
    ensures
        dec_int(n).len() >= 1,
        forall|i: int| 0 <= i < dec_int(n).len() ==> #[trigger] dec_int(n)[i] != ':',
{
    if n < 0 {
        lemma_dec_nat_plain((-n) as nat);
        assert(forall|i: int|
            0 <= i < dec_int(n).len() ==> #[trigger] dec_int(n)[i] != ':') by {
            lemma_dec_nat_plain((-n) as nat);
        }
    } else {
        lemma_dec_nat_plain(n as nat);
    }
}

/// Distinct integers render to distinct signed decimals.
pub proof fn lemma_dec_int_injective(a: int, b: int)
    requires
        dec_int(a) == dec_int(b),
    ensures
        a == b,
{
    if a >= 0 && b >= 0 {
        lemma_dec_nat_injective(a as nat, b as nat);
    } else if a < 0 && b < 0 {
        assert(dec_int(a).drop_first() =~= dec_nat((-a) as nat));
        assert(dec_int(b).drop_first() =~= dec_nat((-b) as nat));
        lemma_dec_nat_injective((-a) as nat, (-b) as nat);
    } else if a >= 0 {
        lemma_dec_nat_plain(a as nat);
        assert(dec_int(b)[0] == '-');
        assert(dec_int(a)[0] != '-');
        assert(false);
    } else {
        lemma_dec_nat_plain(b as nat);
        assert(dec_int(a)[0] == '-');
        assert(dec_int(b)[0] != '-');
        assert(false);
    }
}

/// Relies on `String::push`: appends one character at the end of the string.
#[verifier::external_body]
pub(crate) fn push_char(s: &mut String, c: char)
    ensures
        final(s)@ == old(s)@.push(c),
{
    s.push(c);
}

/// Appends the decimal rendering of `n` to `s`.
pub fn push_dec_u64(s: &mut String, n: u64)
    ensures
        final(s)@ == old(s)@ + dec_nat(n as nat),
    decreases n,
{
    if n >= 10 {
        push_dec_u64(s, n / 10);
    }
    let d: u64 = n % 10;
    let c = if d == 0 {
        '0'
    } else if d == 1 {
        '1'
    } else if d == 2 {
        '2'
    } else if d == 3 {
        '3'
    } else if d == 4 {
        '4'
    } else if d == 5 {
        '5'
    } else if d == 6 {
        '6'
    } else if d == 7 {
        '7'
    } else if d == 8 {
        '8'
    } else {
        '9'
    };
    push_char(s, c);
    proof {
        if n < 10 {
            assert(old(s)@ + dec_nat(n as nat) =~= old(s)@.push(digit_char(n as int)));
        } else {
            assert(old(s)@ + dec_nat(n as nat) =~= (old(s)@ + dec_nat((n / 10) as nat)).push(
                digit_char((n % 10) as int),
            ));
        }
    }
}

/// Appends the decimal rendering of a signed value to `s`.
pub fn push_dec_i64(s: &mut String, n: i64)
    requires
        n > i64::MIN,
    ensures
        final(s)@ == old(s)@ + dec_int(n as int),
{
    if n < 0 {
        push_char(s, '-');
        push_dec_u64(s, (-n) as u64);
        proof {
            assert(old(s)@ + dec_int(n as int) =~= (old(s)@.push('-')) + dec_nat((-n) as nat));
        }
    } else {
        push_dec_u64(s, n as u64);
    }
}

/// What `str::trim` returns: the characters with leading and trailing
/// whitespace removed.
pub uninterp spec fn trim_of(s: Seq<char>) -> Seq<char>;

/// Relies on `str::trim`: removes leading and trailing whitespace; the
/// result depends on the characters alone.
#[verifier::external_body]
pub(crate) fn trim_str(s: &str) -> (r: String)
    ensures
        r@ == trim_of(s@),
{
    s.trim().to_string()
}

} // verus!
