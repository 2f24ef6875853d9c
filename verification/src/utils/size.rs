//! Human-readable storage sizes.
//!
//! A byte count is shown in gibibytes with two decimals, exactly as the float
//! computation `size as f64 / 2^30` printed with `{:.2}` shows it. The float
//! steps are modelled on integers: the conversion to `f64` rounds to the nearest
//! value with a 53-bit significand (ties to even), the division by `2^30` is
//! exact, and the two-decimal rendering rounds the exact value to the nearest
//! hundredth (ties to even).
use vstd::prelude::*;
use vstd::string::*;
use crate::text::{decimal, digit_char, digit_str, push_decimal};

verus! {

/// `2^53`: integers below it are exactly representable as `f64`.
pub open spec fn f64_exact_limit() -> nat {
    9007199254740992
}

/// `2^30`, the number of bytes in a gibibyte.
pub open spec fn gib() -> nat {
    1073741824
}

/// The spacing of the `f64` values around `n`: the smallest power of two `u`
/// with `n / u < 2^53`.
pub open spec fn f64_spacing(n: nat) -> nat
    decreases n,
{
    if n < f64_exact_limit() {
        1
    } else {
        2 * f64_spacing(n / 2)
    }
}

/// Rounds `x / unit` to the nearest integer, ties to even.
pub open spec fn div_round_half_even(x: nat, unit: nat) -> nat
    recommends
        unit >= 2,
        unit % 2 == 0,
{
    let q = x / unit;
    let r = x % unit;
    let half = unit / 2;
    if r > half || (r == half && q % 2 == 1) {
        q + 1
    } else {
        q
    }
}

/// The integer value of `n as f64`.
pub open spec fn f64_nearest(n: nat) -> nat {
    if n < f64_exact_limit() {
        n
    } else {
        let unit = f64_spacing(n);
        div_round_half_even(n, unit) * unit
    }
}

/// The size in hundredths of a gibibyte, as `{:.2}` rounds it.
pub open spec fn gib_hundredths(n: nat) -> nat {
    div_round_half_even(f64_nearest(n) * 100, gib())
}

/// The text `<whole>.<two digits> GiB` for `n` bytes.
pub open spec fn gib_text(n: nat) -> Seq<char> {
    let h = gib_hundredths(n);
    decimal(h / 100) + seq!['.', digit_char((h / 10) % 10), digit_char(h % 10)] + seq![
        ' ',
        'G',
        'i',
        'B',
    ]
}

/// The hundredths shown are the ones nearest to the size in gibibytes (as the
/// `f64` holds it): they are off by at most half a hundredth. Below `2^53`
/// bytes the `f64` value is the size itself.
pub proof fn lemma_gib_hundredths_nearest(n: nat)
    ensures
        gib_hundredths(n) * 1073741824 <= f64_nearest(n) * 100 + 536870912,
        f64_nearest(n) * 100 <= gib_hundredths(n) * 1073741824 + 536870912,
        n < 9007199254740992 ==> f64_nearest(n) == n,
{
    let x = f64_nearest(n) * 100;
    vstd::arithmetic::div_mod::lemma_fundamental_div_mod(x as int, 1073741824);
}

proof fn lemma_spacing_step(size: nat, unit: nat, t: nat)
    requires
        unit >= 1,
        t == size / unit,
        t >= f64_exact_limit(),
        f64_spacing(size) == unit * f64_spacing(t),
    ensures
        t / 2 == size / (unit * 2),
        f64_spacing(size) == (unit * 2) * f64_spacing(t / 2),
        unit * t <= size,
{
    vstd::arithmetic::div_mod::lemma_div_denominator(size as int, unit as int, 2);
    vstd::arithmetic::div_mod::lemma_fundamental_div_mod(size as int, unit as int);
    assert(f64_spacing(t) == 2 * f64_spacing(t / 2));
    assert(unit * f64_spacing(t) == (unit * 2) * f64_spacing(t / 2)) by (nonlinear_arith)
        requires
            f64_spacing(t) == 2 * f64_spacing(t / 2),
    ;
    assert(unit * t <= size) by (nonlinear_arith)
        requires
            unit >= 1,
            size == unit * (size / unit) + size % unit,
            size % unit >= 0,
            t == size / unit,
    ;
}

/// The integer value of `size as f64`.
fn f64_nearest_of(size: u64) -> (m: u128)
    ensures
        m == f64_nearest(size as nat),
        m <= 0x2_0000_0000_0000_0000u128,
{
    let mut unit: u64 = 1;
    let mut t: u64 = size;
    while t >= 9007199254740992
        invariant
            1 <= unit <= 4096,
            t as nat == size as nat / unit as nat,
            f64_spacing(size as nat) == unit * f64_spacing(t as nat),
        decreases t,
    {
        proof {
            lemma_spacing_step(size as nat, unit as nat, t as nat);
            assert(unit < 2048) by (nonlinear_arith)
                requires
                    unit * t <= size,
                    t >= 9007199254740992,
                    size < 0x1_0000_0000_0000_0000,
            ;
        }
        t = t / 2;
        unit = unit * 2;
    }
    if size < 9007199254740992 {
        return size as u128;
    }
    assert(f64_spacing(t as nat) == 1);
    assert(unit as nat == f64_spacing(size as nat)) by (nonlinear_arith)
        requires
            f64_spacing(t as nat) == 1,
            f64_spacing(size as nat) == unit * f64_spacing(t as nat),
    ;
    assert(unit >= 2) by {
        assert(unit != 1) by {
            if unit == 1 {
                assert(t == size);
            }
        }
    }
    let q: u64 = t;
    let r: u64 = size % unit;
    let half: u64 = unit / 2;
    let rounded: u64 = if r > half || (r == half && q % 2 == 1) {
        q + 1
    } else {
        q
    };
    assert(rounded * unit <= 0x2_0000_0000_0000_0000u128) by (nonlinear_arith)
        requires
            rounded <= 9007199254740992,
            unit <= 4096,
    ;
    (rounded as u128) * (unit as u128)
}

/// Renders a byte count in gibibytes with two decimals, e.g. `"1.50 GiB"`.
pub fn bytes_to_gb_string(size: u64) -> (s: String)
    ensures
        s@ == gib_text(size as nat),
        s@ == decimal(gib_hundredths(size as nat) / 100) + seq![
            '.',
            digit_char((gib_hundredths(size as nat) / 10) % 10),
            digit_char(gib_hundredths(size as nat) % 10),
            ' ',
            'G',
            'i',
            'B',
        ],
{
    let m = f64_nearest_of(size);
    let x: u128 = m * 100;
    let q: u128 = x / 1073741824;
    let r: u128 = x % 1073741824;
    let h: u128 = if r > 536870912 || (r == 536870912 && q % 2 == 1) {
        q + 1
    } else {
        q
    };
    assert(h == gib_hundredths(size as nat));
    assert(h / 100 < 0x1_0000_0000_0000_0000u128);
    let whole: u64 = (h / 100) as u64;
    let tens: u64 = ((h / 10) % 10) as u64;
    let ones: u64 = (h % 10) as u64;
    let mut s = String::new();
    push_decimal(&mut s, whole);
    proof {
        reveal_strlit(".");
        reveal_strlit(" GiB");
    }
    s.append(".");
    s.append(digit_str(tens));
    s.append(digit_str(ones));
    s.append(" GiB");
    proof {
        assert(s@ =~= gib_text(size as nat));
    }
    s
}

} // verus!
