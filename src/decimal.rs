//! Decimal text of binary64 values with two digits after the point, on bit
//! patterns and exact integer arithmetic.
use crate::float_order::{f64_is_nan, f64_magnitude, f64_negative, INFINITY_BITS, SIGN_BIT};
use vstd::arithmetic::power2::{
    lemma2_to64, lemma2_to64_rest, lemma_pow2_strictly_increases, lemma_pow2_unfold, pow2,
};
use vstd::prelude::*;

verus! {

/// The character of decimal digit `d`.
pub open spec fn digit_char(d: nat) -> char {
    if d == 0 {
        '0'
    } else if d == 1 {
        '1'
    } else if d == 2 {
        '2'
    } else if d == 3 {
        '3'
    } else if d == 4 {
        '4'
    } else if d == 5 {
        '5'
    } else if d == 6 {
        '6'
    } else if d == 7 {
        '7'
    } else if d == 8 {
        '8'
    } else {
        '9'
    }
}

/// `n` in decimal, without leading zeros.
pub open spec fn decimal(n: nat) -> Seq<char>
    decreases n,
{
    if n < 10 {
        seq![digit_char(n)]
    } else {
        decimal(n / 10).push(digit_char(n % 10))
    }
}

/// `h` hundredths written with two digits after the point.
pub open spec fn hundredths_text(h: nat) -> Seq<char> {
    decimal(h / 100) + seq!['.', digit_char((h / 10) % 10), digit_char(h % 10)]
}

/// 10 to the power `n`.
pub open spec fn pow10(n: nat) -> nat
    decreases n,
{
    if n == 0 {
        1
    } else {
        10 * pow10((n - 1) as nat)
    }
}

/// The biased exponent field of `b`.
pub open spec fn f64_exponent_field(b: u64) -> nat {
    ((b as nat / pow2(52)) % 2048) as nat
}

/// The integer significand of a finite `b`: its magnitude is
/// `f64_significand(b) * 2^f64_exponent(b)`.
pub open spec fn f64_significand(b: u64) -> nat {
    if f64_exponent_field(b) == 0 {
        b as nat % pow2(52)
    } else {
        b as nat % pow2(52) + pow2(52)
    }
}

/// The power of two that scales the significand of a finite `b`.
pub open spec fn f64_exponent(b: u64) -> int {
    if f64_exponent_field(b) == 0 {
        -1074
    } else {
        f64_exponent_field(b) - 1075
    }
}

/// `a / d` rounded to the nearest integer, ties to the even one.
pub open spec fn round_div(a: nat, d: nat) -> nat {
    let q = a / d;
    let r = a % d;
    if 2 * r > d || (2 * r == d && q % 2 == 1) {
        q + 1
    } else {
        q
    }
}

/// The magnitude of a finite `b` in hundredths, rounded to nearest, ties to even.
pub open spec fn f64_hundredths(b: u64) -> nat {
    let m = f64_significand(b) * 100;
    let e = f64_exponent(b);
    if e >= 0 {
        m * pow2(e as nat)
    } else {
        round_div(m, pow2((-e) as nat))
    }
}

/// `b` written with two digits after the point; `NaN`, `inf` and `-inf`
/// for the values that have no digits. A negative sign is kept even when
/// the digits are all zero.
pub open spec fn f64_fixed2(b: u64) -> Seq<char> {
    if f64_is_nan(b) {
        seq!['N', 'a', 'N']
    } else if f64_magnitude(b) == INFINITY_BITS {
        if f64_negative(b) {
            seq!['-', 'i', 'n', 'f']
        } else {
            seq!['i', 'n', 'f']
        }
    } else if f64_negative(b) {
        seq!['-'] + hundredths_text(f64_hundredths(b))
    } else {
        hundredths_text(f64_hundredths(b))
    }
}

/// The number that little-endian decimal digits `v` spell.
pub open spec fn digits_value(v: Seq<u8>) -> nat
    decreases v.len(),
{
    if v.len() == 0 {
        0
    } else {
        v[0] as nat + 10 * digits_value(v.drop_first())
    }
}

/// `v` is the little-endian decimal digits of a number, without leading zeros.
pub open spec fn is_digits(v: Seq<u8>) -> bool {
    &&& v.len() > 0
    &&& forall|i: int| 0 <= i < v.len() ==> #[trigger] v[i] < 10
    &&& (v.len() == 1 || v.last() != 0)
}

/// The characters of `v`, most significant first.
pub open spec fn digits_text(v: Seq<u8>) -> Seq<char> {
    Seq::new(v.len(), |i: int| digit_char(v[v.len() - 1 - i] as nat))
}

proof fn lemma_digits_push(v: Seq<u8>, d: u8)
    ensures
        digits_value(v.push(d)) == digits_value(v) + d * pow10(v.len()),
    decreases v.len(),
{
    let w = v.push(d);
    if v.len() > 0 {
        assert(w.drop_first() =~= v.drop_first().push(d));
        assert(w[0] == v[0]);
        lemma_digits_push(v.drop_first(), d);
        assert(digits_value(w) == v[0] + 10 * digits_value(v.drop_first().push(d)));
        assert(digits_value(v) == v[0] + 10 * digits_value(v.drop_first()));
        assert(pow10(v.len()) == 10 * pow10((v.len() - 1) as nat));
        assert(10 * (digits_value(v.drop_first()) + d * pow10((v.len() - 1) as nat)) == 10
            * digits_value(v.drop_first()) + d * pow10(v.len())) by (nonlinear_arith)
            requires
                pow10(v.len()) == 10 * pow10((v.len() - 1) as nat),
        ;
    } else {
        assert(w.drop_first() =~= Seq::<u8>::empty());
        assert(w[0] == d);
        assert(digits_value(w) == d + 10 * digits_value(w.drop_first()));
        assert(digits_value(w.drop_first()) == 0);
        assert(digits_value(v) == 0);
        assert(pow10(0) == 1);
    }
}

proof fn lemma_digits_zero(v: Seq<u8>)
    requires
        v.len() > 0,
        v.last() != 0,
    ensures
        digits_value(v) > 0,
    decreases v.len(),
{
    if v.len() > 1 {
        lemma_digits_zero(v.drop_first());
    }
}

/// Canonical digits read back as `decimal` of their value.
proof fn lemma_digits_text(v: Seq<u8>)
    requires
        is_digits(v),
    ensures
        decimal(digits_value(v)) == digits_text(v),
    decreases v.len(),
{
    let n = digits_value(v);
    let rest = v.drop_first();
    if v.len() == 1 {
        assert(rest =~= Seq::<u8>::empty());
        assert(decimal(n) =~= digits_text(v));
    } else {
        assert(v[0] < 10);
        assert forall|i: int| 0 <= i < rest.len() implies #[trigger] rest[i] < 10 by {
            assert(rest[i] == v[i + 1]);
        }
        lemma_digits_zero(rest);
        lemma_digits_text(rest);
        assert(n / 10 == digits_value(rest));
        assert(n % 10 == v[0]);
        assert(decimal(n) =~= digits_text(v));
    }
}

/// The text of the digit `d`.
fn digit_str(d: u8) -> (r: &'static str)
    requires
        d < 10,
    ensures
        r@ == seq![digit_char(d as nat)],
{
    proof {
        reveal_strlit("0");
        reveal_strlit("1");
        reveal_strlit("2");
        reveal_strlit("3");
        reveal_strlit("4");
        reveal_strlit("5");
        reveal_strlit("6");
        reveal_strlit("7");
        reveal_strlit("8");
        reveal_strlit("9");
    }
    match d {
        0 => "0",
        1 => "1",
        2 => "2",
        3 => "3",
        4 => "4",
        5 => "5",
        6 => "6",
        7 => "7",
        8 => "8",
        _ => "9",
    }
}

/// The canonical decimal digits of `n`, least significant first.
fn digits_of_u64(n: u64) -> (v: Vec<u8>)
    ensures
        is_digits(v@),
        digits_value(v@) == n,
{
    let mut v: Vec<u8> = Vec::new();
    v.push((n % 10) as u8);
    let mut k: u64 = n / 10;
    proof {
        lemma_digits_push(Seq::<u8>::empty(), (n % 10) as u8);
        assert(v@ =~= Seq::<u8>::empty().push((n % 10) as u8));
        assert(digits_value(Seq::<u8>::empty()) == 0);
        assert(pow10(0) == 1);
        assert(pow10(1) == 10 * pow10(0));
        assert(((n % 10) as u8) as int == n % 10);
        assert(digits_value(v@) == digits_value(Seq::<u8>::empty()) + ((n % 10) as u8) * pow10(0));
        assert(digits_value(v@) == n % 10);
        assert(n % 10 + 10 * (n / 10) == n);
    }
    while k > 0
        invariant
            v@.len() >= 1,
            forall|i: int| 0 <= i < v@.len() ==> #[trigger] v@[i] < 10,
            k == 0 ==> (v@.len() == 1 || v@.last() != 0),
            digits_value(v@) + pow10(v@.len()) * k == n,
        decreases k,
    {
        let d = (k % 10) as u8;
        proof {
            lemma_digits_push(v@, d);
            let p = pow10(v@.len());
            assert(pow10(v@.len() + 1) == 10 * p);
            assert(p * k == d * p + 10 * p * (k / 10)) by (nonlinear_arith)
                requires
                    d == k % 10,
            ;
        }
        v.push(d);
        k = k / 10;
    }
    v
}

/// Twice the number that `v` spells, as canonical digits.
fn double_digits(v: &Vec<u8>) -> (r: Vec<u8>)
    requires
        is_digits(v@),
    ensures
        is_digits(r@),
        digits_value(r@) == 2 * digits_value(v@),
{
    let mut out: Vec<u8> = Vec::new();
    let mut carry: u8 = 0;
    let mut i: usize = 0;
    proof {
        assert(v@.take(0) =~= Seq::<u8>::empty());
        assert(out@ =~= Seq::<u8>::empty());
        assert(digits_value(Seq::<u8>::empty()) == 0);
    }
    while i < v.len()
        invariant
            is_digits(v@),
            i <= v@.len(),
            out@.len() == i,
            carry <= 1,
            forall|j: int| 0 <= j < out@.len() ==> #[trigger] out@[j] < 10,
            digits_value(out@) + carry * pow10(i as nat) == 2 * digits_value(v@.take(i as int)),
            i > 0 && carry == 0 ==> out@[i - 1] >= 2 * v@[i - 1],
        decreases v@.len() - i,
    {
        let x = v[i];
        assert(x < 10);
        let t: u8 = 2 * x + carry;
        proof {
            lemma_digits_push(out@, t % 10);
            assert(v@.take(i + 1) =~= v@.take(i as int).push(x));
            lemma_digits_push(v@.take(i as int), x);
            let p = pow10(i as nat);
            assert(pow10((i + 1) as nat) == 10 * p);
            assert((t % 10) as int * p + (t / 10) as int * (10 * p) == t as int * p)
                by (nonlinear_arith);
            assert(t as int * p == 2 * (x as int * p) + carry as int * p) by (nonlinear_arith)
                requires
                    t == 2 * x + carry,
            ;
        }
        out.push(t % 10);
        carry = t / 10;
        i = i + 1;
    }
    proof {
        assert(v@.take(v@.len() as int) =~= v@);
    }
    if carry == 1 {
        proof {
            lemma_digits_push(out@, 1);
        }
        out.push(1);
    }
    out
}

/// Appends `h` hundredths with two digits after the point, where `v`
/// spells `h`.
fn push_hundredths(out: &mut String, v: &Vec<u8>)
    requires
        is_digits(v@),
    ensures
        final(out)@ == old(out)@ + hundredths_text(digits_value(v@)),
{
    let len = v.len();
    let ghost h = digits_value(v@);
    let ghost rest = v@.drop_first();
    proof {
        reveal_strlit("0");
        reveal_strlit(".");
        assert(v@[0] < 10);
    }
    if len >= 3 {
        let ghost high = v@.skip(2);
        proof {
            assert(rest.drop_first() =~= high);
            assert(rest[0] == v@[1]);
            assert(v@[1] < 10);
            assert(h == v@[0] + 10 * digits_value(rest));
            assert(digits_value(rest) == v@[1] + 10 * digits_value(high));
            assert(h / 100 == digits_value(high) && (h / 10) % 10 == v@[1] && h % 10 == v@[0])
                by (nonlinear_arith)
                requires
                    h == v@[0] + 10 * (v@[1] + 10 * digits_value(high)),
                    v@[0] < 10,
                    v@[1] < 10,
            ;
            assert forall|j: int| 0 <= j < high.len() implies #[trigger] high[j] < 10 by {
                assert(high[j] == v@[j + 2]);
            }
            assert(high.last() == v@.last());
            lemma_digits_text(high);
        }
        let mut i: usize = len;
        while i > 2
            invariant
                len == v@.len(),
                2 <= i <= len,
                high == v@.skip(2),
                is_digits(v@),
                out@ == old(out)@ + digits_text(high).take(len - i),
            decreases i,
        {
            let d = v[i - 1];
            out.append(digit_str(d));
            i = i - 1;
            proof {
                assert(digits_text(high).take(len - i) =~= digits_text(high).take(len - i - 1).push(
                    digit_char(d as nat),
                ));
            }
        }
        proof {
            assert(digits_text(high).take(len - 2) =~= digits_text(high));
        }
        out.append(".");
        out.append(digit_str(v[1]));
        out.append(digit_str(v[0]));
    } else {
        let tens: u8 = if len == 2 {
            v[1]
        } else {
            0
        };
        proof {
            if len == 2 {
                assert(rest[0] == v@[1]);
                assert(rest.drop_first() =~= Seq::<u8>::empty());
                assert(digits_value(Seq::<u8>::empty()) == 0);
                assert(digits_value(rest) == rest[0] + 10 * digits_value(rest.drop_first()));
                assert(digits_value(rest) == v@[1]);
            } else {
                assert(rest =~= Seq::<u8>::empty());
            }
            assert(h == v@[0] + 10 * tens);
            assert(h / 100 == 0 && (h / 10) % 10 == tens && h % 10 == v@[0]) by (nonlinear_arith)
                requires
                    h == v@[0] + 10 * tens,
                    v@[0] < 10,
                    tens < 10,
            ;
        }
        out.append("0");
        out.append(".");
        out.append(digit_str(tens));
        out.append(digit_str(v[0]));
    }
    proof {
        assert(final(out)@ =~= old(out)@ + hundredths_text(h));
    }
}

/// 2 to the 52nd: the weight of a normal value's leading significand bit.
pub const HIDDEN_BIT: u64 = 0x10_0000_0000_0000;

/// The canonical digits of `f64_hundredths(b)`.
fn hundredths_digits(b: u64) -> (v: Vec<u8>)
    ensures
        is_digits(v@),
        digits_value(v@) == f64_hundredths(b),
{
    proof {
        lemma2_to64();
        lemma2_to64_rest();
    }
    let field = (b / HIDDEN_BIT) % 2048;
    let fraction = b % HIDDEN_BIT;
    let significand = if field == 0 {
        fraction
    } else {
        fraction + HIDDEN_BIT
    };
    assert(significand == f64_significand(b));
    let m = significand * 100;
    if field >= 1075 {
        let e = field - 1075;
        assert(e as int == f64_exponent(b));
        let mut v = digits_of_u64(m);
        let mut k: u64 = 0;
        assert(m * pow2(0) == m);
        while k < e
            invariant
                k <= e,
                is_digits(v@),
                digits_value(v@) == m * pow2(k as nat),
            decreases e - k,
        {
            v = double_digits(&v);
            proof {
                lemma_pow2_unfold((k + 1) as nat);
                assert(m * pow2((k + 1) as nat) == 2 * (m * pow2(k as nat))) by (nonlinear_arith)
                    requires
                        pow2((k + 1) as nat) == 2 * pow2(k as nat),
                ;
            }
            k = k + 1;
        }
        v
    } else {
        let s = if field == 0 {
            1074
        } else {
            1075 - field
        };
        assert(s as int == -f64_exponent(b));
        if s >= 62 {
            proof {
                if s > 62 {
                    lemma_pow2_strictly_increases(62, s as nat);
                }
                let d = pow2(s as nat);
                assert(m < d);
                vstd::arithmetic::div_mod::lemma_small_mod(m as nat, d);
                vstd::arithmetic::div_mod::lemma_basic_div(m as int, d as int);
                assert(round_div(m as nat, d) == 0);
            }
            digits_of_u64(0)
        } else {
            let mut d: u64 = 1;
            let mut k: u64 = 0;
            while k < s
                invariant
                    k <= s < 62,
                    d == pow2(k as nat),
                    pow2(62) == 0x4000_0000_0000_0000,
                decreases s - k,
            {
                proof {
                    lemma_pow2_unfold((k + 1) as nat);
                    if k + 1 < 62 {
                        lemma_pow2_strictly_increases((k + 1) as nat, 62);
                    }
                }
                d = d * 2;
                k = k + 1;
            }
            let q = m / d;
            let r = m % d;
            let h = if 2 * r > d || (2 * r == d && q % 2 == 1) {
                q + 1
            } else {
                q
            };
            digits_of_u64(h)
        }
    }
}

/// `b` written with two digits after the point.
pub fn fixed2(b: u64) -> (r: String)
    ensures
        r@ == f64_fixed2(b),
{
    proof {
        reveal_strlit("NaN");
        reveal_strlit("inf");
        reveal_strlit("-inf");
        reveal_strlit("-");
    }
    let magnitude = b % SIGN_BIT;
    if magnitude > INFINITY_BITS {
        return String::from_str("NaN");
    }
    if magnitude == INFINITY_BITS {
        if b >= SIGN_BIT {
            return String::from_str("-inf");
        }
        return String::from_str("inf");
    }
    let mut out = if b >= SIGN_BIT {
        String::from_str("-")
    } else {
        String::new()
    };
    let digits = hundredths_digits(b);
    push_hundredths(&mut out, &digits);
    out
}

} // verus!
