use vstd::prelude::*;
use crate::wide::Wide;
use crate::wide::wide_cap;

verus! {

// The level curve: the experience needed to stand at level n is
// floor(100 * n^2.1) for n >= 2, and 0 for level 1.  Since
// 100 * n^2.1 = (10^20 * n^21)^(1/10), that floor is exactly the integer r
// with r^10 <= 10^20 * n^21 < (r+1)^10, which is how the curve is both
// specified and computed here - no rounding beyond the single outer floor.

/// x^k.
pub open spec fn ipow(x: int, k: nat) -> int
    decreases k,
{
    if k == 0 {
        1
    } else {
        x * ipow(x, (k - 1) as nat)
    }
}

/// 10^20, the scale that turns the tenth root of n^21 into 100 * n^2.1.
pub open spec fn curve_scale() -> int {
    100000000000000000000
}

/// 10^20 * n^21, whose integer tenth root is the curve value at level n.
pub open spec fn curve_num(n: int) -> int {
    curve_scale() * ipow(n, 21)
}

/// r is the integer tenth root of nn.
pub open spec fn is_tenth_root(nn: int, r: int) -> bool {
    0 <= r && ipow(r, 10) <= nn < ipow(r + 1, 10)
}

/// The exact mathematical curve: 0 at level 1 (and below), the integer tenth
/// root of 10^20 * n^21 above.
pub open spec fn curve_value(n: int) -> int {
    if n <= 1 {
        0
    } else {
        choose|r: int| #[trigger] is_tenth_root(curve_num(n), r)
    }
}

/// What the executable curve returns: the exact value, saturated to u32.
pub open spec fn spec_xp_for_level(n: int) -> int {
    if curve_value(n) > 0xffffffff {
        0xffffffff
    } else {
        curve_value(n)
    }
}

/// The level that a given experience total puts a character at: the largest
/// level whose curve value does not exceed the total.
pub open spec fn is_level_of(total: int, n: int) -> bool {
    1 <= n <= 4312 && curve_value(n) <= total < curve_value(n + 1)
}

pub open spec fn spec_level_from_xp(total: int) -> int {
    choose|n: int| #[trigger] is_level_of(total, n)
}

proof fn lemma_ipow_nonneg(x: int, k: nat)
    requires
        0 <= x,
    ensures
        0 <= ipow(x, k),
    decreases k,
{
    if k > 0 {
        lemma_ipow_nonneg(x, (k - 1) as nat);
        assert(x * ipow(x, (k - 1) as nat) >= 0) by (nonlinear_arith)
            requires
                x >= 0,
                ipow(x, (k - 1) as nat) >= 0,
        ;
    }
}

proof fn lemma_ipow_pos(x: int, k: nat)
    requires
        1 <= x,
    ensures
        1 <= ipow(x, k),
    decreases k,
{
    if k > 0 {
        lemma_ipow_pos(x, (k - 1) as nat);
        assert(x * ipow(x, (k - 1) as nat) >= 1) by (nonlinear_arith)
            requires
                x >= 1,
                ipow(x, (k - 1) as nat) >= 1,
        ;
    }
}

proof fn lemma_ipow_mono(a: int, b: int, k: nat)
    requires
        0 <= a <= b,
    ensures
        ipow(a, k) <= ipow(b, k),
    decreases k,
{
    if k > 0 {
        lemma_ipow_mono(a, b, (k - 1) as nat);
        lemma_ipow_nonneg(a, (k - 1) as nat);
        assert(a * ipow(a, (k - 1) as nat) <= b * ipow(b, (k - 1) as nat)) by (nonlinear_arith)
            requires
                0 <= a <= b,
                0 <= ipow(a, (k - 1) as nat) <= ipow(b, (k - 1) as nat),
        ;
    }
}

proof fn lemma_ipow_strict(a: int, b: int, k: nat)
    requires
        0 <= a < b,
        1 <= k,
    ensures
        ipow(a, k) < ipow(b, k),
    decreases k,
{
    if k == 1 {
        assert(ipow(a, 1) == a * ipow(a, 0));
        assert(ipow(b, 1) == b * ipow(b, 0));
    } else {
        lemma_ipow_strict(a, b, (k - 1) as nat);
        lemma_ipow_nonneg(a, (k - 1) as nat);
        lemma_ipow_pos(b, (k - 1) as nat);
        assert(a * ipow(a, (k - 1) as nat) < b * ipow(b, (k - 1) as nat)) by (nonlinear_arith)
            requires
                0 <= a < b,
                0 <= ipow(a, (k - 1) as nat) < ipow(b, (k - 1) as nat),
                1 <= ipow(b, (k - 1) as nat),
        ;
    }
}

proof fn lemma_ipow_adds(x: int, j: nat, k: nat)
    ensures
        ipow(x, j + k) == ipow(x, j) * ipow(x, k),
    decreases j,
{
    if j == 0 {
        assert(ipow(x, k) == 1 * ipow(x, k));
    } else {
        lemma_ipow_adds(x, (j - 1) as nat, k);
        assert(ipow(x, (j + k - 1) as nat) == ipow(x, (j - 1) as nat) * ipow(x, k));
        assert(x * (ipow(x, (j - 1) as nat) * ipow(x, k)) == (x * ipow(x, (j - 1) as nat)) * ipow(
            x,
            k,
        )) by (nonlinear_arith);
    }
}

/// Every nonnegative integer has an integer tenth root.
proof fn lemma_tenth_root_exists(nn: int)
    requires
        0 <= nn,
    ensures
        exists|r: int| #[trigger] is_tenth_root(nn, r),
    decreases nn,
{
    if nn == 0 {
        assert(ipow(0, 10) == 0 && ipow(1, 10) == 1) by {
            reveal_with_fuel(ipow, 11);
        };
        assert(is_tenth_root(0, 0));
    } else {
        lemma_tenth_root_exists(nn - 1);
        let r = choose|r: int| #[trigger] is_tenth_root(nn - 1, r);
        if ipow(r + 1, 10) == nn {
            lemma_ipow_strict(r + 1, r + 2, 10);
            assert(is_tenth_root(nn, r + 1));
        } else {
            assert(is_tenth_root(nn, r));
        }
    }
}

proof fn lemma_tenth_root_unique(nn: int, r1: int, r2: int)
    requires
        is_tenth_root(nn, r1),
        is_tenth_root(nn, r2),
    ensures
        r1 == r2,
{
    if r1 < r2 {
        lemma_ipow_mono(r1 + 1, r2, 10);
    }
    if r2 < r1 {
        lemma_ipow_mono(r2 + 1, r1, 10);
    }
}

/// The curve value at a level n >= 2 is the tenth root that the definition chooses.
proof fn lemma_curve_value_is_root(n: int)
    requires
        2 <= n,
    ensures
        is_tenth_root(curve_num(n), curve_value(n)),
{
    lemma_ipow_nonneg(n, 21);
    lemma_tenth_root_exists(curve_num(n));
}

proof fn lemma_ipow_exp_mono(x: int, j: nat, k: nat)
    requires
        1 <= x,
        j <= k,
    ensures
        ipow(x, j) <= ipow(x, k),
{
    lemma_ipow_adds(x, j, (k - j) as nat);
    lemma_ipow_pos(x, j);
    lemma_ipow_pos(x, (k - j) as nat);
    assert(ipow(x, j) * 1 <= ipow(x, j) * ipow(x, (k - j) as nat)) by (nonlinear_arith)
        requires
            1 <= ipow(x, j),
            1 <= ipow(x, (k - j) as nat),
    ;
}

/// Ground bounds of the curve at the edge of the u32 range: level 4313 is the
/// first whose curve value reaches 2^32.
proof fn lemma_curve_ground()
    ensures
        ipow(0x400000000, 10) < wide_cap(),
        curve_num(4313) >= ipow(0x100000000, 10),
        curve_num(4312) < ipow(0x100000000, 10),
        curve_num(4313) < wide_cap(),
{
    reveal_with_fuel(ipow, 23);
}

/// The curve never decreases with the level.
pub proof fn lemma_curve_mono(n1: int, n2: int)
    requires
        1 <= n1 <= n2,
    ensures
        curve_value(n1) <= curve_value(n2),
{
    if n1 == 1 {
        if n2 >= 2 {
            lemma_curve_value_is_root(n2);
        }
    } else {
        lemma_curve_value_is_root(n1);
        lemma_curve_value_is_root(n2);
        let r1 = curve_value(n1);
        let r2 = curve_value(n2);
        lemma_ipow_mono(n1, n2, 21);
        assert(curve_scale() * ipow(n1, 21) <= curve_scale() * ipow(n2, 21)) by (nonlinear_arith)
            requires
                ipow(n1, 21) <= ipow(n2, 21),
                curve_scale() == 100000000000000000000,
        ;
        if r1 > r2 {
            lemma_ipow_mono(r2 + 1, r1, 10);
        }
    }
}

proof fn lemma_ipow_mul_distr(a: int, b: int, k: nat)
    ensures
        ipow(a * b, k) == ipow(a, k) * ipow(b, k),
    decreases k,
{
    if k > 0 {
        lemma_ipow_mul_distr(a, b, (k - 1) as nat);
        assert((a * b) * (ipow(a, (k - 1) as nat) * ipow(b, (k - 1) as nat)) == (a * ipow(
            a,
            (k - 1) as nat,
        )) * (b * ipow(b, (k - 1) as nat))) by (nonlinear_arith);
    }
}

/// For r >= 49, (r+1)^10 <= r^9 * (r + 19): the tenth power of the successor
/// overshoots by less than a factor (1 + 19/r).
proof fn lemma_succ_tenth_power(r: int)
    requires
        49 <= r,
    ensures
        ipow(r + 1, 10) <= ipow(r, 9) * (r + 19),
{
    let p3 = ipow(r, 3);
    let p7 = ipow(r, 7);
    let p9 = ipow(r, 9);
    assert(ipow(r, 1) == r * ipow(r, 0));
    assert(ipow(r, 2) == r * ipow(r, 1));
    assert(ipow(r, 3) == r * ipow(r, 2));
    assert(ipow(r, 4) == r * ipow(r, 3));
    assert(ipow(r, 5) == r * ipow(r, 4));
    assert(ipow(r, 6) == r * ipow(r, 5));
    assert(ipow(r, 7) == r * ipow(r, 6));
    assert(ipow(r, 8) == r * ipow(r, 7));
    assert(ipow(r, 9) == r * ipow(r, 8));
    let a2 = ipow(r + 1, 2);
    assert(ipow(r + 1, 2) == (r + 1) * ipow(r + 1, 1));
    assert(ipow(r + 1, 1) == (r + 1) * ipow(r + 1, 0));
    assert(a2 == (r + 1) * (r + 1));
    let t2 = r * (r + 3);
    assert(0 <= a2 <= t2) by (nonlinear_arith)
        requires
            a2 == (r + 1) * (r + 1),
            t2 == r * (r + 3),
            r >= 1,
    ;
    let a4 = ipow(r + 1, 4);
    lemma_ipow_adds(r + 1, 2, 2);
    assert(a4 == a2 * a2);
    let t4 = p3 * (r + 7);
    assert(0 <= a4 <= t4) by (nonlinear_arith)
        requires
            a4 == a2 * a2,
            0 <= a2 <= t2,
            t2 == r * (r + 3),
            t4 == p3 * (r + 7),
            p3 == r * (r * (r * 1)),
            r >= 9,
    ;
    let a8 = ipow(r + 1, 8);
    lemma_ipow_adds(r + 1, 4, 4);
    assert(a8 == a4 * a4);
    let t8 = p7 * (r + 15);
    assert(0 <= a8 <= t8) by (nonlinear_arith)
        requires
            a8 == a4 * a4,
            0 <= a4 <= t4,
            t4 == p3 * (r + 7),
            t8 == p7 * (r + 15),
            p3 == r * (r * (r * 1)),
            p7 == r * (r * (r * (r * (r * (r * (r * 1)))))),
            r >= 49,
    ;
    let a10 = ipow(r + 1, 10);
    lemma_ipow_adds(r + 1, 8, 2);
    assert(a10 == a8 * a2);
    assert(a10 <= p9 * (r + 19)) by (nonlinear_arith)
        requires
            a10 == a8 * a2,
            0 <= a8 <= t8,
            0 <= a2 <= t2,
            t2 == r * (r + 3),
            t8 == p7 * (r + 15),
            p7 == r * (r * (r * (r * (r * (r * (r * 1)))))),
            p9 == r * (r * (r * (r * (r * (r * (r * (r * (r * 1)))))))),
            r >= 45,
    ;
}

/// For m >= 1, (m+1)^21 >= m^20 * (m + 21): the 21st power of the successor
/// grows by more than a factor (1 + 21/m).
proof fn lemma_succ_power21(m: int)
    requires
        1 <= m,
    ensures
        ipow(m + 1, 21) >= ipow(m, 20) * (m + 21),
{
    let n = m + 1;
    let x3 = ipow(m, 3);
    let x6 = ipow(m, 6);
    let x7 = ipow(m, 7);
    let x14 = ipow(m, 14);
    let x15 = ipow(m, 15);
    let x18 = ipow(m, 18);
    let x19 = ipow(m, 19);
    let x20 = ipow(m, 20);
    assert(ipow(m, 1) == m * ipow(m, 0));
    assert(ipow(m, 2) == m * ipow(m, 1));
    assert(ipow(m, 3) == m * ipow(m, 2));
    assert(ipow(m, 7) == m * ipow(m, 6));
    assert(ipow(m, 15) == m * ipow(m, 14));
    assert(ipow(m, 19) == m * ipow(m, 18));
    lemma_ipow_adds(m, 3, 3);
    lemma_ipow_adds(m, 7, 7);
    lemma_ipow_adds(m, 15, 3);
    lemma_ipow_adds(m, 19, 1);
    assert(x6 == x3 * x3);
    assert(x14 == x7 * x7);
    assert(x18 == x15 * x3);
    assert(x20 == x19 * (m * ipow(m, 0)));
    lemma_ipow_nonneg(m, 3);
    lemma_ipow_nonneg(m, 6);
    lemma_ipow_nonneg(m, 7);
    lemma_ipow_nonneg(m, 14);
    lemma_ipow_nonneg(m, 15);
    lemma_ipow_nonneg(m, 18);
    lemma_ipow_nonneg(m, 19);
    let b2 = ipow(n, 2);
    assert(ipow(n, 2) == n * ipow(n, 1));
    assert(ipow(n, 1) == n * ipow(n, 0));
    assert(b2 == (m + 1) * (m + 1));
    assert(b2 >= m * (m + 2) >= 0) by (nonlinear_arith)
        requires
            b2 == (m + 1) * (m + 1),
            m >= 1,
    ;
    let b4 = ipow(n, 4);
    lemma_ipow_adds(n, 2, 2);
    assert(b4 == b2 * b2);
    assert(b4 >= x3 * (m + 4) >= 0) by (nonlinear_arith)
        requires
            b4 == b2 * b2,
            b2 >= m * (m + 2) >= 0,
            x3 == m * (m * (m * 1)),
            m >= 1,
    ;
    let b8 = ipow(n, 8);
    lemma_ipow_adds(n, 4, 4);
    assert(b8 == b4 * b4);
    assert(b8 >= x7 * (m + 8) >= 0) by (nonlinear_arith)
        requires
            b8 == b4 * b4,
            b4 >= x3 * (m + 4) >= 0,
            x6 == x3 * x3,
            x7 == m * x6,
            x3 >= 0,
            x6 >= 0,
            m >= 1,
    ;
    let b16 = ipow(n, 16);
    lemma_ipow_adds(n, 8, 8);
    assert(b16 == b8 * b8);
    assert(b16 >= x15 * (m + 16) >= 0) by (nonlinear_arith)
        requires
            b16 == b8 * b8,
            b8 >= x7 * (m + 8) >= 0,
            x14 == x7 * x7,
            x15 == m * x14,
            x7 >= 0,
            x14 >= 0,
            m >= 1,
    ;
    let b20 = ipow(n, 20);
    lemma_ipow_adds(n, 16, 4);
    assert(b20 == b16 * b4);
    assert(b20 >= x19 * (m + 20) >= 0) by (nonlinear_arith)
        requires
            b20 == b16 * b4,
            b16 >= x15 * (m + 16) >= 0,
            b4 >= x3 * (m + 4) >= 0,
            x18 == x15 * x3,
            x19 == m * x18,
            x15 >= 0,
            x3 >= 0,
            x18 >= 0,
            m >= 1,
    ;
    let b21 = ipow(n, 21);
    lemma_ipow_adds(n, 20, 1);
    assert(ipow(n, 1) == n * ipow(n, 0));
    assert(b21 == b20 * n);
    assert(b21 >= x20 * (m + 21)) by (nonlinear_arith)
        requires
            b21 == b20 * (m + 1),
            b20 >= x19 * (m + 20) >= 0,
            x20 == x19 * (m * 1),
            x19 >= 0,
            m >= 1,
    ;
}

/// The curve value at any level from 2 up is at least 100 times the square of
/// the level below it.
proof fn lemma_curve_value_large(n: int)
    requires
        2 <= n,
    ensures
        curve_value(n) >= 100 * ((n - 1) * (n - 1)),
{
    lemma_curve_value_is_root(n);
    let r = curve_value(n);
    let m = n - 1;
    let q = 100 * (m * m);
    lemma_ipow_mul_distr(100, m * m, 10);
    lemma_ipow_mul_distr(m, m, 10);
    lemma_ipow_adds(m, 10, 10);
    assert(ipow(100, 10) == curve_scale()) by {
        reveal_with_fuel(ipow, 11);
    };
    assert(ipow(q, 10) == curve_scale() * ipow(m, 20));
    lemma_ipow_mono(m, n, 20);
    lemma_ipow_exp_mono(n, 20, 21);
    lemma_ipow_nonneg(m, 20);
    assert(curve_scale() * ipow(m, 20) <= curve_scale() * ipow(n, 21)) by (nonlinear_arith)
        requires
            0 <= ipow(m, 20),
            ipow(m, 20) <= ipow(n, 21),
            curve_scale() == 100000000000000000000,
    ;
    if r + 1 <= q {
        lemma_ipow_mono(r + 1, q, 10);
        assert(false);
    }
}

/// Law: the curve starts at zero and rises strictly with the level, so each
/// level demands strictly more total experience than the one before it.
pub proof fn lemma_curve_strictly_increasing(n: int)
    requires
        2 <= n,
    ensures
        curve_value(1) == 0,
        curve_value(n - 1) < curve_value(n),
{
    if n == 2 {
        lemma_curve_value_is_root(2);
        let r = curve_value(2);
        if r == 0 {
            assert(ipow(1, 10) == 1) by {
                reveal_with_fuel(ipow, 11);
            };
            assert(ipow(2, 21) >= 1) by {
                lemma_ipow_pos(2, 21);
            };
            assert(curve_scale() * ipow(2, 21) >= curve_scale() * 1) by (nonlinear_arith)
                requires
                    ipow(2, 21) >= 1,
                    curve_scale() == 100000000000000000000,
            ;
            assert(false);
        }
    } else {
        let m = n - 1;
        lemma_curve_value_is_root(m);
        lemma_curve_value_is_root(n);
        let r = curve_value(m);
        let r2 = curve_value(n);
        lemma_curve_value_large(m);
        assert(r >= 100 * ((m - 1) * (m - 1)));
        assert(r >= 100 && r >= m) by (nonlinear_arith)
            requires
                r >= 100 * ((m - 1) * (m - 1)),
                m >= 2,
        ;
        lemma_succ_tenth_power(r);
        lemma_succ_power21(m);
        lemma_ipow_nonneg(m, 20);
        lemma_ipow_nonneg(m, 21);
        lemma_ipow_nonneg(r, 9);
        lemma_ipow_adds(m, 20, 1);
        assert(ipow(m, 1) == m * ipow(m, 0));
        assert(ipow(m, 21) == ipow(m, 20) * m);
        lemma_ipow_adds(r, 9, 1);
        assert(ipow(r, 1) == r * ipow(r, 0));
        assert(ipow(r, 10) == ipow(r, 9) * r);
        // (r+1)^10 * m^21 <= r^9 (r+19) * m^20 * m <= r^10 (m+21) m^20
        //                 <= r^10 * (m+1)^21 <= N(m) * (m+1)^21
        let lhs = ipow(r + 1, 10);
        assert(lhs * ipow(m, 21) <= (ipow(r, 9) * (r + 19)) * ipow(m, 21)) by (nonlinear_arith)
            requires
                0 <= lhs <= ipow(r, 9) * (r + 19),
                0 <= ipow(m, 21),
        ;
        assert((ipow(r, 9) * (r + 19)) * ipow(m, 21) <= (ipow(r, 10) * (m + 21)) * ipow(m, 20))
            by (nonlinear_arith)
            requires
                ipow(m, 21) == ipow(m, 20) * m,
                ipow(r, 10) == ipow(r, 9) * r,
                0 <= ipow(r, 9),
                0 <= ipow(m, 20),
                m >= 1,
                r >= m,
                r >= 100,
        ;
        lemma_ipow_nonneg(r, 10);
        assert((ipow(r, 10) * (m + 21)) * ipow(m, 20) <= ipow(r, 10) * ipow(m + 1, 21))
            by (nonlinear_arith)
            requires
                0 <= ipow(r, 10),
                0 <= ipow(m, 20) * (m + 21) <= ipow(m + 1, 21),
        ;
        assert(ipow(m, 20) * (m + 21) >= 0) by (nonlinear_arith)
            requires
                0 <= ipow(m, 20),
                m >= 1,
        ;
        assert(ipow(r, 10) * ipow(m + 1, 21) <= (curve_scale() * ipow(m, 21)) * ipow(m + 1, 21))
            by (nonlinear_arith)
            requires
                0 <= ipow(r, 10) <= curve_scale() * ipow(m, 21),
                0 <= ipow(m + 1, 21),
        ;
        lemma_ipow_nonneg(m + 1, 21);
        lemma_ipow_pos(m, 21);
        assert(lhs <= curve_scale() * ipow(m + 1, 21)) by (nonlinear_arith)
            requires
                lhs * ipow(m, 21) <= (curve_scale() * ipow(m, 21)) * ipow(m + 1, 21),
                1 <= ipow(m, 21),
        ;
        if r2 < r + 1 {
            lemma_ipow_mono(r2 + 1, r + 1, 10);
            assert(false);
        }
    }
}

/// The curve's first thresholds, evaluated: level 2 opens at 428, level 3
/// at 1004, level 5 at 2936 experience.
pub proof fn lemma_curve_first_values()
    ensures
        curve_value(2) == 428,
        curve_value(3) == 1004,
        curve_value(5) == 2936,
{
    reveal_with_fuel(ipow, 23);
    assert(is_tenth_root(curve_num(2), 428));
    lemma_curve_value_is_root(2);
    lemma_tenth_root_unique(curve_num(2), 428, curve_value(2));
    assert(is_tenth_root(curve_num(3), 1004));
    lemma_curve_value_is_root(3);
    lemma_tenth_root_unique(curve_num(3), 1004, curve_value(3));
    assert(is_tenth_root(curve_num(5), 2936));
    lemma_curve_value_is_root(5);
    lemma_tenth_root_unique(curve_num(5), 2936, curve_value(5));
}

/// Law: reading the level back from a level's exact experience threshold
/// returns that level.
pub proof fn lemma_level_from_xp_inverse(n: int)
    requires
        1 <= n <= 4312,
    ensures
        spec_level_from_xp(spec_xp_for_level(n)) == n,
{
    lemma_curve_fits_u32(n);
    let total = spec_xp_for_level(n);
    lemma_curve_strictly_increasing(n + 1);
    assert(is_level_of(total, n));
    let n2 = spec_level_from_xp(total);
    assert(is_level_of(total, n2));
    lemma_level_of_unique(total, n, n2);
}

/// Below level 4313 the curve value fits in a u32.
pub proof fn lemma_curve_fits_u32(n: int)
    requires
        1 <= n <= 4312,
    ensures
        0 <= curve_value(n) <= 0xffffffff,
        spec_xp_for_level(n) == curve_value(n),
{
    lemma_curve_ground();
    if n >= 2 {
        lemma_curve_value_is_root(n);
        lemma_curve_mono(n, 4312);
        lemma_curve_value_is_root(4312);
        let r = curve_value(4312);
        if r >= 0x100000000 {
            lemma_ipow_mono(0x100000000, r, 10);
        }
    }
}

/// From level 4313 on, the curve value exceeds the u32 range.
proof fn lemma_curve_saturates(n: int)
    requires
        4313 <= n,
    ensures
        curve_value(n) > 0xffffffff,
        spec_xp_for_level(n) == 0xffffffff,
{
    lemma_curve_ground();
    lemma_curve_value_is_root(4313);
    let r = curve_value(4313);
    if r < 0x100000000 {
        lemma_ipow_mono(r + 1, 0x100000000, 10);
    }
    lemma_curve_mono(4313, n);
}

/// Exactly one level brackets a given total.
pub proof fn lemma_level_of_unique(total: int, n1: int, n2: int)
    requires
        is_level_of(total, n1),
        is_level_of(total, n2),
    ensures
        n1 == n2,
{
    if n1 < n2 {
        lemma_curve_mono(n1 + 1, n2);
    }
    if n2 < n1 {
        lemma_curve_mono(n2 + 1, n1);
    }
}

/// r^10 as a wide integer.
fn pow10_wide(r: u64) -> (w: Wide)
    requires
        r <= 0x400000000,
    ensures
        w.wf(),
        w.val() == ipow(r as int, 10),
{
    let mut w = Wide::from_u64(r);
    assert(ipow(r as int, 1) == r * ipow(r as int, 0));
    let mut i: u64 = 1;
    while i < 10
        invariant
            1 <= i <= 10,
            r <= 0x400000000,
            w.wf(),
            w.val() == ipow(r as int, i as nat),
        decreases 10 - i,
    {
        proof {
            lemma_curve_ground();
            lemma_ipow_mono(r as int, 0x400000000, i as nat);
            lemma_ipow_nonneg(r as int, i as nat);
            lemma_ipow_pos(0x400000000, i as nat);
            assert(ipow(r as int, i as nat) * r <= ipow(0x400000000, i as nat) * 0x400000000)
                by (nonlinear_arith)
                requires
                    0 <= ipow(r as int, i as nat) <= ipow(0x400000000, i as nat),
                    0 <= r <= 0x400000000,
            ;
            assert(ipow(0x400000000, i as nat) * 0x400000000 == ipow(0x400000000, (i + 1) as nat));
            lemma_ipow_exp_mono(0x400000000, (i + 1) as nat, 10);
        }
        w = w.mul_u64(r);
        proof {
            assert(ipow(r as int, (i + 1) as nat) == r * ipow(r as int, i as nat));
        }
        i = i + 1;
    }
    w
}

/// 10^20 * n^21 as a wide integer.
fn curve_num_wide(n: u64) -> (w: Wide)
    requires
        2 <= n <= 4313,
    ensures
        w.wf(),
        w.val() == curve_num(n as int),
{
    let mut w = Wide::from_u64(n);
    assert(ipow(n as int, 1) == n * ipow(n as int, 0));
    let mut i: u64 = 1;
    while i < 21
        invariant
            1 <= i <= 21,
            2 <= n <= 4313,
            w.wf(),
            w.val() == ipow(n as int, i as nat),
        decreases 21 - i,
    {
        proof {
            lemma_curve_ground();
            lemma_ipow_mono(n as int, 4313, i as nat);
            lemma_ipow_nonneg(n as int, i as nat);
            lemma_ipow_pos(4313, i as nat);
            assert(ipow(n as int, i as nat) * n <= ipow(4313, i as nat) * 4313)
                by (nonlinear_arith)
                requires
                    0 <= ipow(n as int, i as nat) <= ipow(4313, i as nat),
                    0 <= n <= 4313,
            ;
            assert(ipow(4313, i as nat) * 4313 == ipow(4313, (i + 1) as nat));
            lemma_ipow_exp_mono(4313, (i + 1) as nat, 21);
            assert(curve_scale() * ipow(4313, 21) >= 1 * ipow(4313, 21)) by (nonlinear_arith)
                requires
                    ipow(4313, 21) >= 0,
                    curve_scale() == 100000000000000000000,
            ;
        }
        w = w.mul_u64(n);
        proof {
            assert(ipow(n as int, (i + 1) as nat) == n * ipow(n as int, i as nat));
        }
        i = i + 1;
    }
    proof {
        lemma_curve_ground();
        lemma_ipow_mono(n as int, 4313, 21);
        lemma_ipow_nonneg(n as int, 21);
        assert(ipow(n as int, 21) * 10000000000 * 10000000000 == curve_scale() * ipow(n as int, 21))
            by (nonlinear_arith);
        assert(ipow(n as int, 21) * 10000000000 <= ipow(4313, 21) * 10000000000
            && ipow(n as int, 21) * 10000000000 * 10000000000 <= ipow(4313, 21) * 10000000000
            * 10000000000) by (nonlinear_arith)
            requires
                0 <= ipow(n as int, 21) <= ipow(4313, 21),
        ;
        assert(ipow(4313, 21) * 10000000000 * 10000000000 == curve_scale() * ipow(4313, 21))
            by (nonlinear_arith);
        assert(ipow(4313, 21) * 10000000000 >= 0) by (nonlinear_arith)
            requires
                ipow(4313, 21) >= 0,
        ;
    }
    let w = w.mul_u64(10000000000);
    let w = w.mul_u64(10000000000);
    w
}

/// The level curve: experience thresholds of levels and their inverse.
pub struct LevelSystem;

impl LevelSystem {
    /// The least total experience that puts a character at the given level:
    /// 0 at level 1, floor(100 * n^2.1) above, saturated to the u32 range.
    pub fn xp_for_level(level: u32) -> (r: u32)
        ensures
            r == spec_xp_for_level(level as int),
    {
        if level <= 1 {
            return 0;
        }
        if level >= 4313 {
            proof {
                lemma_curve_saturates(level as int);
            }
            return 0xffffffff;
        }
        let nw = curve_num_wide(level as u64);
        proof {
            lemma_curve_ground();
            lemma_ipow_nonneg(level as int, 21);
            assert(curve_scale() * ipow(level as int, 21) >= 0) by (nonlinear_arith)
                requires
                    ipow(level as int, 21) >= 0,
            ;
            lemma_curve_mono(level as int, 4312);
            lemma_curve_value_is_root(level as int);
            lemma_curve_value_is_root(4312);
            let r4312 = curve_value(4312);
            if r4312 >= 0x100000000 {
                lemma_ipow_mono(0x100000000, r4312, 10);
            }
            // curve_num(level) < ipow(2^32, 10): its root is at most curve_value(4312) < 2^32
            lemma_ipow_mono(curve_value(level as int) + 1, 0x100000000, 10);
            lemma_ipow_strict(0x100000000, 0x400000000, 10);
            assert(ipow(0, 10) == 0) by {
                reveal_with_fuel(ipow, 11);
            };
        }
        let mut lo: u64 = 0;
        let mut hi: u64 = 0x400000000;
        while lo + 1 < hi
            invariant
                0 <= lo < hi <= 0x400000000,
                nw.wf(),
                nw.val() == curve_num(level as int),
                ipow(lo as int, 10) <= curve_num(level as int) < ipow(hi as int, 10),
            decreases hi - lo,
        {
            let mid = lo + (hi - lo) / 2;
            let w10 = pow10_wide(mid);
            if w10.le(&nw) {
                lo = mid;
            } else {
                hi = mid;
            }
        }
        proof {
            assert(is_tenth_root(curve_num(level as int), lo as int));
            lemma_curve_value_is_root(level as int);
            lemma_tenth_root_unique(curve_num(level as int), lo as int, curve_value(level as int));
            lemma_curve_fits_u32(level as int);
        }
        lo as u32
    }

    /// The largest level whose curve threshold the given total reaches.
    pub fn level_from_xp(total_xp: u32) -> (r: u32)
        ensures
            is_level_of(total_xp as int, r as int),
            r == spec_level_from_xp(total_xp as int),
    {
        let mut level: u32 = 1;
        let mut next: u32 = Self::xp_for_level(2);
        while level < 4312 && next <= total_xp
            invariant
                1 <= level <= 4312,
                curve_value(level as int) <= total_xp,
                next == spec_xp_for_level((level + 1) as int),
            decreases 4312 - level,
        {
            proof {
                lemma_curve_fits_u32((level + 1) as int);
            }
            level = level + 1;
            next = Self::xp_for_level(level + 1);
        }
        proof {
            if level == 4312 {
                lemma_curve_saturates(4313);
            }
            assert(is_level_of(total_xp as int, level as int));
            let n2 = spec_level_from_xp(total_xp as int);
            assert(is_level_of(total_xp as int, n2));
            lemma_level_of_unique(total_xp as int, level as int, n2);
        }
        level
    }

    /// Experience still missing to the next level's threshold.
    pub fn xp_to_next_level(total_xp: u32) -> (r: u32)
        ensures
            r == spec_xp_for_level(spec_level_from_xp(total_xp as int) + 1) - total_xp,
    {
        let current_level = Self::level_from_xp(total_xp);
        let next_level_xp = Self::xp_for_level(current_level + 1);
        proof {
            if current_level == 4312 {
                lemma_curve_saturates(4313);
            } else {
                lemma_curve_fits_u32((current_level + 1) as int);
            }
        }
        next_level_xp - total_xp
    }
}

} // verus!
