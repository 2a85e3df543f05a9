//! Human-readable byte sizes using binary (IEC) units.
use vstd::prelude::*;
use vstd::string::*;

use crate::text::{decimal, digit_char, push_decimal, push_digit};

verus! {

/// `1024^k` for the five units `B`, `KiB`, `MiB`, `GiB`, `TiB`.
pub open spec fn unit_scale(k: nat) -> nat {
    if k == 0 {
        1
    } else if k == 1 {
        1024
    } else if k == 2 {
        1048576
    } else if k == 3 {
        1073741824
    } else {
        1099511627776
    }
}

/// The name of unit `k`.
pub open spec fn unit_name(k: nat) -> Seq<char> {
    if k == 0 {
        seq!['B']
    } else if k == 1 {
        seq!['K', 'i', 'B']
    } else if k == 2 {
        seq!['M', 'i', 'B']
    } else if k == 3 {
        seq!['G', 'i', 'B']
    } else {
        seq!['T', 'i', 'B']
    }
}

/// The largest unit that fits `b`: the greatest `k <= 4` with `1024^k <= b`.
pub open spec fn unit_index(b: nat) -> nat {
    if b >= unit_scale(4) {
        4
    } else if b >= unit_scale(3) {
        3
    } else if b >= unit_scale(2) {
        2
    } else if b >= unit_scale(1) {
        1
    } else {
        0
    }
}

/// `n / d` rounded to the nearest integer, ties to the even one.
pub open spec fn div_round_half_even(n: nat, d: nat) -> nat {
    let q = n / d;
    let r = n % d;
    if 2 * r > d || (2 * r == d && q % 2 == 1) {
        q + 1
    } else {
        q
    }
}

/// `n / d` rounded to the nearest integer, ties away from zero.
pub open spec fn div_round_half_up(n: nat, d: nat) -> nat {
    (2 * n + d) / (2 * d)
}

/// The distance between adjacent `f64` values around `n`: 1 below `2^53`,
/// doubling with every further bit of `n`.
pub open spec fn f64_spacing(n: nat) -> nat
    decreases n,
{
    if n < 0x20000000000000 {
        1
    } else {
        2 * f64_spacing(n / 2)
    }
}

/// The value of `n as f64`: `n` rounded to the nearest representable value,
/// ties to the one with an even significand.
pub open spec fn as_f64(n: nat) -> nat {
    div_round_half_even(n, f64_spacing(n)) * f64_spacing(n)
}

/// For `b >= 1024`: the shown value in tenths and the index of its unit.
///
/// The value is `b as f64` divided by the largest fitting unit and rounded to
/// one decimal (ties to even). A value that would round to `1024.0` of a unit
/// (rounding half up) is shown in the next unit instead.
pub open spec fn scaled_tenths(b: nat) -> (nat, nat) {
    let k = unit_index(b);
    if k < 4 && div_round_half_up(10 * b, unit_scale(k)) >= 10240 {
        (div_round_half_even(10 * b, unit_scale(k + 1)), k + 1)
    } else {
        (div_round_half_even(10 * as_f64(b), unit_scale(k)), k)
    }
}

/// The text of a byte count: `"<n> B"` below 1024, else `"<int>.<tenth> <unit>"`.
pub open spec fn bytes_text(b: nat) -> Seq<char> {
    if b < 1024 {
        decimal(b) + seq![' ', 'B']
    } else {
        let (t, k) = scaled_tenths(b);
        decimal(t / 10) + seq!['.', digit_char(t % 10), ' '] + unit_name(k)
    }
}

fn round_half_even(n: u128, d: u128) -> (q: u128)
    requires
        d > 0,
        n < u128::MAX,
    ensures
        q == div_round_half_even(n as nat, d as nat),
{
    let q = n / d;
    let r = n % d;
    if r > d - r || (r == d - r && q % 2 == 1) {
        q + 1
    } else {
        q
    }
}

/// `b as f64`, as an exact integer.
fn u64_as_f64(b: u64) -> (f: u128)
    ensures
        f == as_f64(b as nat),
        f <= 0x10000000000001000,
{
    let mut m: u64 = b;
    let mut s: u128 = 1;
    while m >= 0x20000000000000
        invariant
            f64_spacing(b as nat) == s * f64_spacing(m as nat),
            s >= 1,
            m == b as int / s as int,
            s == 1 || s * 0x10000000000000 <= b,
        decreases m,
    {
        proof {
            assert(f64_spacing(m as nat) == 2 * f64_spacing((m / 2) as nat));
            assert(s * f64_spacing(m as nat) == (s * 2) * f64_spacing((m / 2) as nat)) by (nonlinear_arith)
                requires
                    f64_spacing(m as nat) == 2 * f64_spacing((m / 2) as nat);
            vstd::arithmetic::div_mod::lemma_div_denominator(b as int, s as int, 2);
            vstd::arithmetic::div_mod::lemma_fundamental_div_mod(b as int, s as int);
            assert((2 * s) * 0x10000000000000 <= b) by (nonlinear_arith)
                requires
                    m == b as int / s as int,
                    b as int == s * (b as int / s as int) + b as int % s as int,
                    b as int % s as int >= 0,
                    m >= 0x20000000000000,
                    s >= 1;
        }
        m = m / 2;
        s = s * 2;
    }
    assert(s <= 0x1000);
    let q = round_half_even(b as u128, s);
    proof {
        vstd::arithmetic::div_mod::lemma_fundamental_div_mod(b as int, s as int);
        assert(q * s <= b + s) by (nonlinear_arith)
            requires
                q <= b as int / s as int + 1,
                b as int == s * (b as int / s as int) + b as int % s as int,
                b as int % s as int >= 0,
                s >= 1;
        assert(f64_spacing(m as nat) == 1);
        assert(f64_spacing(b as nat) == s) by (nonlinear_arith)
            requires
                f64_spacing(b as nat) == s * f64_spacing(m as nat),
                f64_spacing(m as nat) == 1;
    }
    q * s
}

/// Format a byte count as a human-readable string using binary units.
///
/// Values below 1024 are shown as a whole number of bytes (`"512 B"`); larger
/// values are scaled to the largest fitting unit with one decimal place
/// (`"1.5 KiB"`, `"31.2 GiB"`).
pub fn humanize_bytes(bytes: u64) -> (text: String)
    ensures
        text@ == bytes_text(bytes as nat),
{
    let mut out = String::new();
    proof {
        reveal_strlit(" B");
        reveal_strlit(".");
        reveal_strlit(" ");
        reveal_strlit("B");
        reveal_strlit("KiB");
        reveal_strlit("MiB");
        reveal_strlit("GiB");
        reveal_strlit("TiB");
    }
    if bytes < 1024 {
        push_decimal(&mut out, bytes);
        out.append(" B");
        return out;
    }
    let b = bytes as u128;
    let (k, scale): (u64, u128) = if bytes >= 1099511627776 {
        (4, 1099511627776)
    } else if bytes >= 1073741824 {
        (3, 1073741824)
    } else if bytes >= 1048576 {
        (2, 1048576)
    } else {
        (1, 1024)
    };
    assert(k == unit_index(bytes as nat) && scale == unit_scale(k as nat));
    let (tenths, unit): (u128, u64) = if k < 4 && (20 * b + scale) / (2 * scale) >= 10240 {
        (round_half_even(10 * b, 1024 * scale), k + 1)
    } else {
        (round_half_even(10 * u64_as_f64(bytes), scale), k)
    };
    assert((tenths as nat, unit as nat) == scaled_tenths(bytes as nat));
    push_decimal(&mut out, (tenths / 10) as u64);
    out.append(".");
    push_digit(&mut out, (tenths % 10) as u64);
    out.append(" ");
    let name = if unit == 1 {
        "KiB"
    } else if unit == 2 {
        "MiB"
    } else if unit == 3 {
        "GiB"
    } else {
        "TiB"
    };
    out.append(name);
    out
}

/// Rounding half to even never exceeds rounding half up.
proof fn lemma_half_even_le_half_up(n: nat, d: nat)
    requires
        d > 0,
    ensures
        div_round_half_even(n, d) <= div_round_half_up(n, d),
{
    let q = n / d;
    let r = n % d;
    vstd::arithmetic::div_mod::lemma_fundamental_div_mod(n as int, d as int);
    assert(2 * n + d == (2 * d) * q + 2 * r + d) by (nonlinear_arith)
        requires
            n == d * q + r;
    if 2 * r >= d {
        assert((2 * n + d) / (2 * d) == q + 1) by (nonlinear_arith)
            requires
                2 * n + d == (2 * d) * q + 2 * r + d,
                d <= 2 * r < 2 * d,
                d > 0;
    } else {
        assert((2 * n + d) / (2 * d) == q) by (nonlinear_arith)
            requires
                2 * n + d == (2 * d) * q + 2 * r + d,
                0 <= 2 * r < d,
                d > 0;
    }
}

/// Below 2^53 the conversion to `f64` is exact.
proof fn lemma_as_f64_exact(n: nat)
    requires
        n < 0x20000000000000,
    ensures
        as_f64(n) == n,
{
    assert(f64_spacing(n) == 1);
}

/// In every unit below TiB the shown value is at least `1.0` and below
/// `1024.0`: a value that would round up to `1024.0` is moved to the next
/// unit, so a reading such as `1024.0 KiB` never appears.
pub proof fn law_shown_value_fits_its_unit(b: nat)
    requires
        1024 <= b < 0x10000000000000000,
    ensures
        1 <= scaled_tenths(b).1 <= 4,
        scaled_tenths(b).1 < 4 ==> 10 <= scaled_tenths(b).0 < 10240,
{
    let k = unit_index(b);
    let p = unit_scale(k);
    if k < 4 {
        lemma_as_f64_exact(b);
        if div_round_half_up(10 * b, p) >= 10240 {
            let big = unit_scale(k + 1);
            assert(big == 1024 * p);
            assert(b < big);
            assert(20 * b + p >= 20480 * p) by (nonlinear_arith)
                requires
                    (2 * (10 * b) + p) / (2 * p) >= 10240,
                    p > 0;
            assert(div_round_half_even(10 * b, big) == 10) by (nonlinear_arith)
                requires
                    20 * b + p >= 20480 * p,
                    b < big,
                    big == 1024 * p,
                    p > 0;
        } else {
            lemma_half_even_le_half_up(10 * b, p);
            assert(b >= p);
            assert(div_round_half_even(10 * b, p) >= 10) by (nonlinear_arith)
                requires
                    b >= p,
                    p > 0;
        }
    }
}

/// `1024` to the power `k`.
pub open spec fn pow1024(k: nat) -> nat
    decreases k,
{
    if k == 0 { 1 } else { 1024 * pow1024((k - 1) as nat) }
}

/// The IEC name of the unit of `1024^k` bytes, for `k` from 1 to 4.
pub open spec fn iec_unit(k: nat) -> Seq<char> {
    if k == 1 {
        "KiB"@
    } else if k == 2 {
        "MiB"@
    } else if k == 3 {
        "GiB"@
    } else {
        "TiB"@
    }
}

/// A size shown as `t` tenths of the unit `1024^k`: `"<t / 10>.<t % 10> <unit>"`.
pub open spec fn shown_size(t: nat, k: nat) -> Seq<char> {
    decimal(t / 10) + seq!['.', digit_char(t % 10), ' '] + iec_unit(k)
}

/// Rounding half to even lands within half a step of the exact quotient.
proof fn lemma_half_even_near(n: nat, d: nat)
    requires
        d > 0,
    ensures
        2 * div_round_half_even(n, d) * d <= 2 * n + d,
        2 * n <= 2 * div_round_half_even(n, d) * d + d,
{
    let q = n / d;
    let r = n % d;
    vstd::arithmetic::div_mod::lemma_fundamental_div_mod(n as int, d as int);
    let e = div_round_half_even(n, d);
    assert(2 * e * d <= 2 * n + d && 2 * n <= 2 * e * d + d) by (nonlinear_arith)
        requires
            n == d * q + r,
            0 <= r < d,
            e == q || e == q + 1,
            e == q + 1 ==> 2 * r >= d,
            e == q ==> 2 * r <= d;
}

/// The spacing of `f64` values is 1, or at most `n / 2^52`.
proof fn lemma_spacing_small(n: nat)
    ensures
        f64_spacing(n) >= 1,
        f64_spacing(n) == 1 || f64_spacing(n) * 0x10000000000000 <= n,
    decreases n,
{
    if n >= 0x20000000000000 {
        lemma_spacing_small(n / 2);
    }
}

/// The shown size is the byte count read in a binary unit to the nearest
/// tenth: below 1024 the exact count of bytes (`"512 B"`); from 1024 on,
/// `t` tenths of a unit `1024^k` (KiB to TiB) where `t * 1024^k` is within
/// half a tenth of the unit of ten times the count (plus, from 2^53 bytes
/// on, the rounding of the count to `f64`, under 4 KiB), and `t` is at least
/// 10 and, below TiB, under 10240, so the unit is the largest that keeps the
/// value at `1.0` or more.
pub proof fn law_bytes_text_reads_back(b: nat)
    requires
        b < 0x10000000000000000,
    ensures
        b < 1024 ==> bytes_text(b) == decimal(b) + " B"@,
        b >= 1024 ==> exists|t: nat, k: nat|
            {
                &&& #[trigger] shown_size(t, k) == bytes_text(b)
                &&& 1 <= k <= 4
                &&& 10 <= t
                &&& k < 4 ==> t < 10240
                &&& 2 * t * pow1024(k) <= 20 * b + pow1024(k) + (if b < 0x20000000000000 { 0nat } else { 40960nat })
                &&& 20 * b <= 2 * t * pow1024(k) + pow1024(k) + (if b < 0x20000000000000 { 0nat } else { 40960nat })
            },
{
    reveal_strlit(" B");
    reveal_strlit("KiB");
    reveal_strlit("MiB");
    reveal_strlit("GiB");
    reveal_strlit("TiB");
    assert(" B"@ =~= seq![' ', 'B']);
    assert("KiB"@ =~= seq!['K', 'i', 'B']);
    assert("MiB"@ =~= seq!['M', 'i', 'B']);
    assert("GiB"@ =~= seq!['G', 'i', 'B']);
    assert("TiB"@ =~= seq!['T', 'i', 'B']);
    reveal_with_fuel(pow1024, 5);
    if b >= 1024 {
        law_shown_value_fits_its_unit(b);
        let (t, k) = scaled_tenths(b);
        let k0 = unit_index(b);
        assert(unit_name(k) == iec_unit(k));
        assert(unit_scale(k) == pow1024(k));
        let big = pow1024(k);
        if k0 < 4 && div_round_half_up(10 * b, unit_scale(k0)) >= 10240 {
            lemma_half_even_near(10 * b, big);
        } else if k0 < 4 {
            lemma_as_f64_exact(b);
            lemma_half_even_near(10 * b, big);
        } else {
            let af = as_f64(b);
            let sp = f64_spacing(b);
            lemma_spacing_small(b);
            lemma_half_even_near(b, sp);
            lemma_half_even_near(10 * af, big);
            assert(2 * af <= 2 * b + sp && 2 * b <= 2 * af + sp) by (nonlinear_arith)
                requires
                    af == div_round_half_even(b, sp) * sp,
                    2 * div_round_half_even(b, sp) * sp <= 2 * b + sp,
                    2 * b <= 2 * div_round_half_even(b, sp) * sp + sp;
            if b < 0x20000000000000 {
                lemma_as_f64_exact(b);
            } else {
                assert(sp <= 4095) by (nonlinear_arith)
                    requires
                        sp == 1 || sp * 0x10000000000000 <= b,
                        b < 0x10000000000000000;
            }
        }
        assert(shown_size(t, k) == bytes_text(b));
        let e: nat = if b < 0x20000000000000 { 0nat } else { 40960nat };
        assert(2 * t * big <= 20 * b + big + e);
        assert(20 * b <= 2 * t * big + big + e);
        if k == 4 {
            assert(big == 0x10000000000);
            if k0 == 4 {
                assert(b >= 0x10000000000);
                assert(t >= 10) by (nonlinear_arith)
                    requires
                        20 * b <= 2 * t * big + big + e,
                        e <= 40960,
                        big == 0x10000000000,
                        b >= 0x10000000000;
            } else {
                assert(unit_scale(k0) == 0x40000000);
                assert(t >= 10) by (nonlinear_arith)
                    requires
                        20 * b <= 2 * t * big + big + e,
                        e == 0,
                        big == 0x10000000000,
                        (2 * (10 * b) + 0x40000000) / (2 * 0x40000000) >= 10240;
            }
        }
        assert(10 <= t);
    }
}

} // verus!
