//! Integer trigonometry in milli-degrees: a quarter-wave milli-sine table
//! at whole-degree resolution, linearly interpolated between degrees and
//! extended to the full turn by symmetry. Exact at multiples of 90 degrees.
use vstd::prelude::*;
use crate::num::FULL_TURN;
use crate::num::norm_spec;
use crate::num::norm_angle;
use vstd::arithmetic::div_mod::lemma_div_is_ordered;

verus! {

/// Milli-sine of `d` whole degrees, for `d` in `[0, 91]`.
#[verifier::opaque]
pub open spec fn sine_q(d: int) -> int {
    if d <= 0 {
        0
    } else if d == 1 {
        17
    } else if d == 2 {
        35
    } else if d == 3 {
        52
    } else if d == 4 {
        70
    } else if d == 5 {
        87
    } else if d == 6 {
        105
    } else if d == 7 {
        122
    } else if d == 8 {
        139
    } else if d == 9 {
        156
    } else if d == 10 {
        174
    } else if d == 11 {
        191
    } else if d == 12 {
        208
    } else if d == 13 {
        225
    } else if d == 14 {
        242
    } else if d == 15 {
        259
    } else if d == 16 {
        276
    } else if d == 17 {
        292
    } else if d == 18 {
        309
    } else if d == 19 {
        326
    } else if d == 20 {
        342
    } else if d == 21 {
        358
    } else if d == 22 {
        375
    } else if d == 23 {
        391
    } else if d == 24 {
        407
    } else if d == 25 {
        423
    } else if d == 26 {
        438
    } else if d == 27 {
        454
    } else if d == 28 {
        469
    } else if d == 29 {
        485
    } else if d == 30 {
        500
    } else if d == 31 {
        515
    } else if d == 32 {
        530
    } else if d == 33 {
        545
    } else if d == 34 {
        559
    } else if d == 35 {
        574
    } else if d == 36 {
        588
    } else if d == 37 {
        602
    } else if d == 38 {
        616
    } else if d == 39 {
        629
    } else if d == 40 {
        643
    } else if d == 41 {
        656
    } else if d == 42 {
        669
    } else if d == 43 {
        682
    } else if d == 44 {
        695
    } else if d == 45 {
        707
    } else if d == 46 {
        719
    } else if d == 47 {
        731
    } else if d == 48 {
        743
    } else if d == 49 {
        755
    } else if d == 50 {
        766
    } else if d == 51 {
        777
    } else if d == 52 {
        788
    } else if d == 53 {
        799
    } else if d == 54 {
        809
    } else if d == 55 {
        819
    } else if d == 56 {
        829
    } else if d == 57 {
        839
    } else if d == 58 {
        848
    } else if d == 59 {
        857
    } else if d == 60 {
        866
    } else if d == 61 {
        875
    } else if d == 62 {
        883
    } else if d == 63 {
        891
    } else if d == 64 {
        899
    } else if d == 65 {
        906
    } else if d == 66 {
        914
    } else if d == 67 {
        921
    } else if d == 68 {
        927
    } else if d == 69 {
        934
    } else if d == 70 {
        940
    } else if d == 71 {
        946
    } else if d == 72 {
        951
    } else if d == 73 {
        956
    } else if d == 74 {
        961
    } else if d == 75 {
        966
    } else if d == 76 {
        970
    } else if d == 77 {
        974
    } else if d == 78 {
        978
    } else if d == 79 {
        982
    } else if d == 80 {
        985
    } else if d == 81 {
        988
    } else if d == 82 {
        990
    } else if d == 83 {
        993
    } else if d == 84 {
        995
    } else if d == 85 {
        996
    } else if d == 86 {
        998
    } else if d == 87 {
        999
    } else if d == 88 {
        999
    } else if d == 89 {
        1000
    } else if d == 90 {
        1000
    } else {
        1000
    }
}

/// Milli-sine of `x` milli-degrees for `x` in `[0, 90000]`, linearly
/// interpolated between whole degrees.
pub open spec fn interp_q(x: int) -> int {
    let d = x / 1000;
    let f = x % 1000;
    sine_q(d) + (sine_q(d + 1) - sine_q(d)) * f / 1000
}

/// Milli-sine of a canonical angle `n` in `[0, FULL_TURN)`, folded onto
/// the first quarter turn.
pub open spec fn sin_norm(n: int) -> int {
    if n <= 90000 {
        interp_q(n)
    } else if n <= 180000 {
        interp_q(180000 - n)
    } else if n <= 270000 {
        -interp_q(n - 180000)
    } else {
        -interp_q(360000 - n)
    }
}

/// Milli-sine of an arbitrary angle in milli-degrees.
pub open spec fn sin_spec(a: int) -> int {
    sin_norm(norm_spec(a))
}

/// Milli-cosine of an arbitrary angle in milli-degrees.
pub open spec fn cos_spec(a: int) -> int {
    sin_norm(norm_spec(a + 90000))
}

/// The whole-degree milli-sine table.
fn sine_table_at(d: i64) -> (r: i64)
    requires
        0 <= d <= 91,
    ensures
        r == sine_q(d as int),
        0 <= r <= 1000,
{
    proof {
        reveal(sine_q);
    }
    match d {
        0 => 0,
        1 => 17,
        2 => 35,
        3 => 52,
        4 => 70,
        5 => 87,
        6 => 105,
        7 => 122,
        8 => 139,
        9 => 156,
        10 => 174,
        11 => 191,
        12 => 208,
        13 => 225,
        14 => 242,
        15 => 259,
        16 => 276,
        17 => 292,
        18 => 309,
        19 => 326,
        20 => 342,
        21 => 358,
        22 => 375,
        23 => 391,
        24 => 407,
        25 => 423,
        26 => 438,
        27 => 454,
        28 => 469,
        29 => 485,
        30 => 500,
        31 => 515,
        32 => 530,
        33 => 545,
        34 => 559,
        35 => 574,
        36 => 588,
        37 => 602,
        38 => 616,
        39 => 629,
        40 => 643,
        41 => 656,
        42 => 669,
        43 => 682,
        44 => 695,
        45 => 707,
        46 => 719,
        47 => 731,
        48 => 743,
        49 => 755,
        50 => 766,
        51 => 777,
        52 => 788,
        53 => 799,
        54 => 809,
        55 => 819,
        56 => 829,
        57 => 839,
        58 => 848,
        59 => 857,
        60 => 866,
        61 => 875,
        62 => 883,
        63 => 891,
        64 => 899,
        65 => 906,
        66 => 914,
        67 => 921,
        68 => 927,
        69 => 934,
        70 => 940,
        71 => 946,
        72 => 951,
        73 => 956,
        74 => 961,
        75 => 966,
        76 => 970,
        77 => 974,
        78 => 978,
        79 => 982,
        80 => 985,
        81 => 988,
        82 => 990,
        83 => 993,
        84 => 995,
        85 => 996,
        86 => 998,
        87 => 999,
        88 => 999,
        89 => 1000,
        90 => 1000,
        _ => 1000,
    }
}

/// The table never decreases from one degree to the next.
proof fn lemma_sine_q_mono(d: int)
    requires
        0 <= d <= 90,
    ensures
        sine_q(d) <= sine_q(d + 1),
        0 <= sine_q(d) <= 1000,
        0 <= sine_q(d + 1) <= 1000,
{
    reveal(sine_q);
}

/// Interpolated milli-sine on the first quarter turn.
fn interp_quarter(x: i64) -> (r: i64)
    requires
        0 <= x <= 90000,
    ensures
        r == interp_q(x as int),
        0 <= r <= 1000,
{
    let d: i64 = x / 1000;
    let f: i64 = x % 1000;
    let t0: i64 = sine_table_at(d);
    let t1: i64 = sine_table_at(d + 1);
    proof {
        lemma_sine_q_mono(d as int);
        assert(0 <= (t1 as int - t0 as int) * f <= (t1 as int - t0 as int) * 1000)
            by (nonlinear_arith)
            requires
                0 <= t1 as int - t0 as int,
                0 <= f < 1000,
        ;
        lemma_div_is_ordered(0, (t1 as int - t0 as int) * f, 1000);
        lemma_div_is_ordered((t1 as int - t0 as int) * f, (t1 as int - t0 as int) * 1000, 1000);
        assert((t1 as int - t0 as int) * 1000 / 1000 == t1 as int - t0 as int) by (nonlinear_arith);
    }
    t0 + (t1 - t0) * f / 1000
}

/// Milli-sine of a canonical angle, folded by symmetry.
fn sin_folded(n: i64) -> (r: i64)
    requires
        0 <= n < FULL_TURN,
    ensures
        r == sin_norm(n as int),
        -1000 <= r <= 1000,
{
    if n <= 90000 {
        interp_quarter(n)
    } else if n <= 180000 {
        interp_quarter(180000 - n)
    } else if n <= 270000 {
        -interp_quarter(n - 180000)
    } else {
        -interp_quarter(360000 - n)
    }
}

/// Milli-sine of an angle in milli-degrees.
pub fn sin_mdeg(a: i64) -> (r: i64)
    requires
        a > i64::MIN,
    ensures
        r == sin_spec(a as int),
        -1000 <= r <= 1000,
{
    let n = norm_angle(a);
    sin_folded(n)
}

/// Milli-cosine of an angle in milli-degrees.
pub fn cos_mdeg(a: i64) -> (r: i64)
    requires
        a < i64::MAX - 90000,
        a > i64::MIN,
    ensures
        r == cos_spec(a as int),
        -1000 <= r <= 1000,
{
    let n = norm_angle(a + 90000);
    sin_folded(n)
}

} // verus!
