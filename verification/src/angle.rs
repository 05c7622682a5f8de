//! Sines and cosines of angles in thousandths of a degree.
//!
//! The sine of a whole number of degrees is read from a table of ninety-one
//! entries in millionths; between two whole degrees the sine is interpolated
//! linearly. Sines of multiples of ninety degrees are exact.

use vstd::prelude::*;

verus! {

/// Steps in one full turn.
pub const FULL_TURN: i32 = 360000;

/// Steps in a quarter of a turn.
pub const QUARTER_TURN: i32 = 90000;

/// What the sine of a right angle is: the scale of sines and cosines.
pub const UNIT_SINE: i32 = 1000000;

/// The sine, in millionths, of `d` whole degrees, for `d` from 0 to 90.
#[verifier::opaque]
pub open spec fn sine_of_degree(d: int) -> int {
    if d <= 0 {
        0
    } else if d <= 1 {
        17452
    } else if d <= 2 {
        34899
    } else if d <= 3 {
        52336
    } else if d <= 4 {
        69756
    } else if d <= 5 {
        87156
    } else if d <= 6 {
        104528
    } else if d <= 7 {
        121869
    } else if d <= 8 {
        139173
    } else if d <= 9 {
        156434
    } else if d <= 10 {
        173648
    } else if d <= 11 {
        190809
    } else if d <= 12 {
        207912
    } else if d <= 13 {
        224951
    } else if d <= 14 {
        241922
    } else if d <= 15 {
        258819
    } else if d <= 16 {
        275637
    } else if d <= 17 {
        292372
    } else if d <= 18 {
        309017
    } else if d <= 19 {
        325568
    } else if d <= 20 {
        342020
    } else if d <= 21 {
        358368
    } else if d <= 22 {
        374607
    } else if d <= 23 {
        390731
    } else if d <= 24 {
        406737
    } else if d <= 25 {
        422618
    } else if d <= 26 {
        438371
    } else if d <= 27 {
        453990
    } else if d <= 28 {
        469472
    } else if d <= 29 {
        484810
    } else if d <= 30 {
        500000
    } else if d <= 31 {
        515038
    } else if d <= 32 {
        529919
    } else if d <= 33 {
        544639
    } else if d <= 34 {
        559193
    } else if d <= 35 {
        573576
    } else if d <= 36 {
        587785
    } else if d <= 37 {
        601815
    } else if d <= 38 {
        615661
    } else if d <= 39 {
        629320
    } else if d <= 40 {
        642788
    } else if d <= 41 {
        656059
    } else if d <= 42 {
        669131
    } else if d <= 43 {
        681998
    } else if d <= 44 {
        694658
    } else if d <= 45 {
        707107
    } else if d <= 46 {
        719340
    } else if d <= 47 {
        731354
    } else if d <= 48 {
        743145
    } else if d <= 49 {
        754710
    } else if d <= 50 {
        766044
    } else if d <= 51 {
        777146
    } else if d <= 52 {
        788011
    } else if d <= 53 {
        798636
    } else if d <= 54 {
        809017
    } else if d <= 55 {
        819152
    } else if d <= 56 {
        829038
    } else if d <= 57 {
        838671
    } else if d <= 58 {
        848048
    } else if d <= 59 {
        857167
    } else if d <= 60 {
        866025
    } else if d <= 61 {
        874620
    } else if d <= 62 {
        882948
    } else if d <= 63 {
        891007
    } else if d <= 64 {
        898794
    } else if d <= 65 {
        906308
    } else if d <= 66 {
        913545
    } else if d <= 67 {
        920505
    } else if d <= 68 {
        927184
    } else if d <= 69 {
        933580
    } else if d <= 70 {
        939693
    } else if d <= 71 {
        945519
    } else if d <= 72 {
        951057
    } else if d <= 73 {
        956305
    } else if d <= 74 {
        961262
    } else if d <= 75 {
        965926
    } else if d <= 76 {
        970296
    } else if d <= 77 {
        974370
    } else if d <= 78 {
        978148
    } else if d <= 79 {
        981627
    } else if d <= 80 {
        984808
    } else if d <= 81 {
        987688
    } else if d <= 82 {
        990268
    } else if d <= 83 {
        992546
    } else if d <= 84 {
        994522
    } else if d <= 85 {
        996195
    } else if d <= 86 {
        997564
    } else if d <= 87 {
        998630
    } else if d <= 88 {
        999391
    } else if d <= 89 {
        999848
    } else {
        1000000
    }
}

/// The sine, in millionths, of an angle of `r` steps in the first quarter of
/// the turn.
pub open spec fn quarter_sine(r: int) -> int {
    let d = r / 1000;
    let f = r % 1000;
    (sine_of_degree(d) * (1000 - f) + sine_of_degree(d + 1) * f) / 1000
}

/// The sine, in millionths, of an angle of `angle` steps.
pub open spec fn sine(angle: int) -> int {
    let t = angle % (FULL_TURN as int);
    if t <= 90000 {
        quarter_sine(t)
    } else if t <= 180000 {
        quarter_sine(180000 - t)
    } else if t <= 270000 {
        -quarter_sine(t - 180000)
    } else {
        -quarter_sine(360000 - t)
    }
}

/// The cosine, in millionths, of an angle of `angle` steps.
pub open spec fn cosine(angle: int) -> int {
    sine(angle + QUARTER_TURN)
}

/// No table entry is negative or beyond the unit, and the entries grow.
pub proof fn lemma_sine_of_degree_bounds(d: int)
    ensures
        0 <= sine_of_degree(d) <= UNIT_SINE,
        sine_of_degree(d) <= sine_of_degree(d + 1),
{
    reveal(sine_of_degree);
}

/// A sine never leaves the range from minus one to one.
pub proof fn lemma_sine_bounds(angle: int)
    ensures
        -UNIT_SINE <= sine(angle) <= UNIT_SINE,
        -UNIT_SINE <= cosine(angle) <= UNIT_SINE,
{
    lemma_sine_range(angle);
    lemma_sine_range(angle + QUARTER_TURN);
}

proof fn lemma_sine_range(angle: int)
    ensures
        -UNIT_SINE <= sine(angle) <= UNIT_SINE,
{
    let t = angle % (FULL_TURN as int);
    if t <= 90000 {
        lemma_quarter_sine_bounds(t);
    } else if t <= 180000 {
        lemma_quarter_sine_bounds(180000 - t);
    } else if t <= 270000 {
        lemma_quarter_sine_bounds(t - 180000);
    } else {
        lemma_quarter_sine_bounds(360000 - t);
    }
}

/// An interpolated sine lies between the entries it is taken from.
pub proof fn lemma_quarter_sine_bounds(r: int)
    requires
        0 <= r <= QUARTER_TURN,
    ensures
        0 <= quarter_sine(r) <= UNIT_SINE,
{
    let d = r / 1000;
    let f = r % 1000;
    let a = sine_of_degree(d);
    let b = sine_of_degree(d + 1);
    lemma_sine_of_degree_bounds(d);
    lemma_sine_of_degree_bounds(d + 1);
    assert(0 <= a * (1000 - f) + b * f <= 1000000 * 1000) by (nonlinear_arith)
        requires
            0 <= a <= 1000000,
            0 <= b <= 1000000,
            0 <= f < 1000,
    ;
}

/// The table holds sines: the squares of the sine of an angle and of the sine
/// of the angle that completes it to a right angle add up to one, but for the
/// rounding of the entries.
pub proof fn lemma_table_is_pythagorean(d: int)
    requires
        0 <= d <= 90,
    ensures
        -1200000 <= sine_of_degree(d) * sine_of_degree(d) + sine_of_degree(90 - d) * sine_of_degree(
            90 - d,
        ) - 1000000000000 <= 1200000,
{
    reveal(sine_of_degree);
}

/// The sines of the four right angles are exact.
pub proof fn lemma_right_angles()
    ensures
        sine(0) == 0,
        cosine(0) == UNIT_SINE,
        sine(90000) == UNIT_SINE,
        cosine(90000) == 0,
        sine(180000) == 0,
        cosine(180000) == -UNIT_SINE,
        sine(270000) == -UNIT_SINE,
        cosine(270000) == 0,
{
    reveal(sine_of_degree);
}

fn table_sine(d: i32) -> (s: i32)
    requires
        0 <= d <= 90,
    ensures
        s == sine_of_degree(d as int),
{
    reveal(sine_of_degree);
    if d <= 0 {
        0
    } else if d <= 1 {
        17452
    } else if d <= 2 {
        34899
    } else if d <= 3 {
        52336
    } else if d <= 4 {
        69756
    } else if d <= 5 {
        87156
    } else if d <= 6 {
        104528
    } else if d <= 7 {
        121869
    } else if d <= 8 {
        139173
    } else if d <= 9 {
        156434
    } else if d <= 10 {
        173648
    } else if d <= 11 {
        190809
    } else if d <= 12 {
        207912
    } else if d <= 13 {
        224951
    } else if d <= 14 {
        241922
    } else if d <= 15 {
        258819
    } else if d <= 16 {
        275637
    } else if d <= 17 {
        292372
    } else if d <= 18 {
        309017
    } else if d <= 19 {
        325568
    } else if d <= 20 {
        342020
    } else if d <= 21 {
        358368
    } else if d <= 22 {
        374607
    } else if d <= 23 {
        390731
    } else if d <= 24 {
        406737
    } else if d <= 25 {
        422618
    } else if d <= 26 {
        438371
    } else if d <= 27 {
        453990
    } else if d <= 28 {
        469472
    } else if d <= 29 {
        484810
    } else if d <= 30 {
        500000
    } else if d <= 31 {
        515038
    } else if d <= 32 {
        529919
    } else if d <= 33 {
        544639
    } else if d <= 34 {
        559193
    } else if d <= 35 {
        573576
    } else if d <= 36 {
        587785
    } else if d <= 37 {
        601815
    } else if d <= 38 {
        615661
    } else if d <= 39 {
        629320
    } else if d <= 40 {
        642788
    } else if d <= 41 {
        656059
    } else if d <= 42 {
        669131
    } else if d <= 43 {
        681998
    } else if d <= 44 {
        694658
    } else if d <= 45 {
        707107
    } else if d <= 46 {
        719340
    } else if d <= 47 {
        731354
    } else if d <= 48 {
        743145
    } else if d <= 49 {
        754710
    } else if d <= 50 {
        766044
    } else if d <= 51 {
        777146
    } else if d <= 52 {
        788011
    } else if d <= 53 {
        798636
    } else if d <= 54 {
        809017
    } else if d <= 55 {
        819152
    } else if d <= 56 {
        829038
    } else if d <= 57 {
        838671
    } else if d <= 58 {
        848048
    } else if d <= 59 {
        857167
    } else if d <= 60 {
        866025
    } else if d <= 61 {
        874620
    } else if d <= 62 {
        882948
    } else if d <= 63 {
        891007
    } else if d <= 64 {
        898794
    } else if d <= 65 {
        906308
    } else if d <= 66 {
        913545
    } else if d <= 67 {
        920505
    } else if d <= 68 {
        927184
    } else if d <= 69 {
        933580
    } else if d <= 70 {
        939693
    } else if d <= 71 {
        945519
    } else if d <= 72 {
        951057
    } else if d <= 73 {
        956305
    } else if d <= 74 {
        961262
    } else if d <= 75 {
        965926
    } else if d <= 76 {
        970296
    } else if d <= 77 {
        974370
    } else if d <= 78 {
        978148
    } else if d <= 79 {
        981627
    } else if d <= 80 {
        984808
    } else if d <= 81 {
        987688
    } else if d <= 82 {
        990268
    } else if d <= 83 {
        992546
    } else if d <= 84 {
        994522
    } else if d <= 85 {
        996195
    } else if d <= 86 {
        997564
    } else if d <= 87 {
        998630
    } else if d <= 88 {
        999391
    } else if d <= 89 {
        999848
    } else {
        1000000
    }
}

fn interpolated_sine(r: i32) -> (s: i32)
    requires
        0 <= r <= QUARTER_TURN,
    ensures
        s == quarter_sine(r as int),
{
    let d: i32 = r / 1000;
    let f: i32 = r % 1000;
    if d == 90 {
        assert(quarter_sine(90000) == 1000000) by {
            reveal(sine_of_degree);
        }
        return 1000000;
    }
    let a: i64 = table_sine(d) as i64;
    let b: i64 = table_sine(d + 1) as i64;
    proof {
        lemma_sine_of_degree_bounds(d as int);
        lemma_sine_of_degree_bounds(d + 1);
        lemma_quarter_sine_bounds(r as int);
        assert(0 <= a * (1000 - f) <= 1000000 * 1000) by (nonlinear_arith)
            requires
                0 <= a <= 1000000,
                0 <= f < 1000,
        ;
        assert(0 <= b * f <= 1000000 * 1000) by (nonlinear_arith)
            requires
                0 <= b <= 1000000,
                0 <= f < 1000,
        ;
    }
    let f: i64 = f as i64;
    ((a * (1000 - f) + b * f) / 1000) as i32
}

/// The angle brought into one turn: the remainder, never negative, of the
/// division by a full turn.
pub fn reduce(angle: i32) -> (t: i32)
    ensures
        t == (angle as int) % (FULL_TURN as int),
        0 <= t < FULL_TURN,
{
    let r: i32 = angle % 360000;
    if r < 0 {
        r + 360000
    } else {
        r
    }
}

fn reduced_sine(t: i32) -> (s: i32)
    requires
        0 <= t < FULL_TURN,
    ensures
        s == sine(t as int),
        -UNIT_SINE <= s <= UNIT_SINE,
{
    proof {
        lemma_sine_bounds(t as int);
    }
    if t <= 90000 {
        interpolated_sine(t)
    } else if t <= 180000 {
        interpolated_sine(180000 - t)
    } else if t <= 270000 {
        -interpolated_sine(t - 180000)
    } else {
        -interpolated_sine(360000 - t)
    }
}

/// Angles that differ by whole turns have the same sine.
pub proof fn lemma_sine_periodic(a: int, b: int)
    requires
        a % (FULL_TURN as int) == b % (FULL_TURN as int),
    ensures
        sine(a) == sine(b),
{
}

/// The sine of `angle`, in millionths.
pub fn sin(angle: i32) -> (s: i32)
    ensures
        s == sine(angle as int),
        -UNIT_SINE <= s <= UNIT_SINE,
{
    let t: i32 = reduce(angle);
    proof {
        lemma_sine_periodic(angle as int, t as int);
    }
    reduced_sine(t)
}

/// The cosine of `angle`, in millionths.
pub fn cos(angle: i32) -> (c: i32)
    ensures
        c == cosine(angle as int),
        -UNIT_SINE <= c <= UNIT_SINE,
{
    let t: i32 = reduce(angle);
    let u: i32 = if t >= 270000 {
        t - 270000
    } else {
        t + 90000
    };
    proof {
        lemma_sine_periodic(angle + 90000, u as int);
    }
    reduced_sine(u)
}

} // verus!
