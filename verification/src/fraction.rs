//! Fractions below one in single precision (IEEE 754), and steps of a tenth between them.
//!
//! A fraction is counted in units of the spacing that single-precision numbers have around a tenth:
//! there are 2^27 of them in a whole. Below an eighth every count is a single-precision number;
//! further up only every second, fourth, eighth and so on is, and sums are rounded to those.

use vstd::prelude::*;

verus! {

/// The number of units in a whole.
pub const ONE: u32 = 0x0800_0000;

/// The single-precision number next to a tenth.
pub const TENTH: u32 = 13421773;

/// The multiple of `grain` next to a number, and the even one of two that are equally near.
#[verifier::inline]
pub open spec fn nearest_multiple(n: int, grain: int) -> int {
    if 2 * (n % grain) > grain || (2 * (n % grain) == grain && (n / grain) % 2 == 1) {
        n - n % grain + grain
    } else {
        n - n % grain
    }
}

/// The single-precision number next to a number of units below 16 wholes: of its binary digits the
/// first 24 can be kept.
#[verifier::opaque]
pub open spec fn rounded(n: int) -> int {
    if n < 0x0100_0000 {
        n
    } else if n < 0x0200_0000 {
        nearest_multiple(n, 2)
    } else if n < 0x0400_0000 {
        nearest_multiple(n, 4)
    } else if n < 0x0800_0000 {
        nearest_multiple(n, 8)
    } else if n < 0x1000_0000 {
        nearest_multiple(n, 16)
    } else if n < 0x2000_0000 {
        nearest_multiple(n, 32)
    } else if n < 0x4000_0000 {
        nearest_multiple(n, 64)
    } else {
        nearest_multiple(n, 128)
    }
}

/// A fraction after a step of a tenth up, as far as the upper limit lets it.
pub open spec fn stepped_up(n: int, high: int) -> int {
    let sum = rounded(n + TENTH);
    if sum < high {
        sum
    } else {
        high
    }
}

/// A fraction after a step of a tenth down, as far as the lower limit lets it.
pub open spec fn stepped_down(n: int, low: int) -> int {
    if n < TENTH {
        low
    } else {
        let difference = rounded(n - TENTH);
        if difference > low {
            difference
        } else {
            low
        }
    }
}

/// How many tenths a fraction is, to the next whole number: its tenfold, rounded.
pub open spec fn tenths(n: int) -> int {
    (rounded(10 * n) + 0x0400_0000) / 0x0800_0000
}

fn round_to_multiple(n: u32, grain: u32) -> (multiple: u32)
    requires
        n < 0x8000_0000,
        grain == 2 || grain == 4 || grain == 8 || grain == 16 || grain == 32 || grain == 64 || grain
            == 128,
    ensures
        grain == 2 ==> multiple == nearest_multiple(n as int, 2),
        grain == 4 ==> multiple == nearest_multiple(n as int, 4),
        grain == 8 ==> multiple == nearest_multiple(n as int, 8),
        grain == 16 ==> multiple == nearest_multiple(n as int, 16),
        grain == 32 ==> multiple == nearest_multiple(n as int, 32),
        grain == 64 ==> multiple == nearest_multiple(n as int, 64),
        grain == 128 ==> multiple == nearest_multiple(n as int, 128),
{
    let rest: u32 = n % grain;
    let below: u32 = n - rest;
    if 2 * rest > grain || (2 * rest == grain && (n / grain) % 2 == 1) {
        below + grain
    } else {
        below
    }
}

/// Rounds to single precision.
fn round(n: u32) -> (single: u32)
    requires
        n < 0x8000_0000,
    ensures
        single == rounded(n as int),
{
    reveal(rounded);
    if n < 0x0100_0000 {
        n
    } else if n < 0x0200_0000 {
        round_to_multiple(n, 2)
    } else if n < 0x0400_0000 {
        round_to_multiple(n, 4)
    } else if n < 0x0800_0000 {
        round_to_multiple(n, 8)
    } else if n < 0x1000_0000 {
        round_to_multiple(n, 16)
    } else if n < 0x2000_0000 {
        round_to_multiple(n, 32)
    } else if n < 0x4000_0000 {
        round_to_multiple(n, 64)
    } else {
        round_to_multiple(n, 128)
    }
}

/// Goes up by a tenth, as far as the upper limit lets it.
pub fn step_up(n: u32, high: u32) -> (sum: u32)
    requires
        n < ONE,
    ensures
        sum == stepped_up(n as int, high as int),
{
    let sum: u32 = round(n + TENTH);
    if sum < high {
        sum
    } else {
        high
    }
}

/// Goes down by a tenth, as far as the lower limit lets it.
pub fn step_down(n: u32, low: u32) -> (difference: u32)
    requires
        n < ONE,
    ensures
        difference == stepped_down(n as int, low as int),
{
    if n < TENTH {
        low
    } else {
        let difference: u32 = round(n - TENTH);
        if difference > low {
            difference
        } else {
            low
        }
    }
}

/// Counts the tenths in a fraction.
pub fn count_tenths(n: u32) -> (count: u8)
    requires
        n < ONE,
    ensures
        count == tenths(n as int),
        count <= 10,
{
    reveal(rounded);
    ((round(10 * n) + 0x0400_0000) / 0x0800_0000) as u8
}

/// The fractions that steps of a tenth lead to, by the tenth that they stand for. Because sums are
/// rounded, there is more than one for most tenths.
pub open spec fn stands_for(n: int, tenth: int) -> bool {
    ||| tenth == 0 && (n == 0 || n == 2)
    ||| tenth == 1 && (n == 13421771 || n == 13421773 || n == 13421775)
    ||| tenth == 2 && (n == 26843544 || n == 26843546 || n == 26843548)
    ||| tenth == 3 && (n == 40265316 || n == 40265320)
    ||| tenth == 4 && (n == 53687088 || n == 53687092)
    ||| tenth == 5 && (n == 67108860 || n == 67108864)
    ||| tenth == 6 && (n == 80530632 || n == 80530640)
    ||| tenth == 7 && (n == 93952408 || n == 93952416)
    ||| tenth == 8 && n == 107374184
}

/// Whether a fraction is one that steps of a tenth lead to.
#[verifier::opaque]
pub open spec fn is_step(n: int) -> bool {
    stands_for(n, tenths(n))
}

/// A fraction that stands for a tenth counts as that tenth.
#[verifier::spinoff_prover]
#[verifier::rlimit(40)]
pub proof fn law_steps_count_as_tenths(n: int, tenth: int)
    requires
        stands_for(n, tenth),
    ensures
        tenths(n) == tenth,
        is_step(n),
{
    reveal(rounded);
    reveal(is_step);
}

/// A fraction that steps of a tenth lead to is a single-precision number within seven units of the
/// tenth that it counts as.
#[verifier::spinoff_prover]
#[verifier::rlimit(40)]
pub proof fn law_steps_lie_near_tenths(n: int)
    requires
        is_step(n),
    ensures
        0 <= tenths(n) <= 8,
        -64 <= 10 * n - tenths(n) * ONE <= 64,
        rounded(n) == n,
{
    reveal(rounded);
    reveal(is_step);
}

/// A step up from a tenth below the limit leads to the next tenth, and at the limit to the limit,
/// however often sums have been rounded before.
#[verifier::spinoff_prover]
#[verifier::rlimit(40)]
pub proof fn law_steps_up_lead_to_tenths(n: int, limit: int)
    requires
        is_step(n),
        is_step(limit),
    ensures
        is_step(stepped_up(n, limit)),
        tenths(n) < tenths(limit) ==> tenths(stepped_up(n, limit)) == tenths(n) + 1,
        tenths(n) >= tenths(limit) ==> stepped_up(n, limit) == limit,
{
    reveal(rounded);
    reveal(is_step);
}

/// Likewise a step down.
#[verifier::spinoff_prover]
#[verifier::rlimit(40)]
pub proof fn law_steps_down_lead_to_tenths(n: int, limit: int)
    requires
        is_step(n),
        is_step(limit),
    ensures
        is_step(stepped_down(n, limit)),
        tenths(n) > tenths(limit) ==> tenths(stepped_down(n, limit)) == tenths(n) - 1,
        tenths(n) <= tenths(limit) ==> stepped_down(n, limit) == limit,
{
    reveal(rounded);
    reveal(is_step);
}

/// Rounding changes nothing below an eighth. From there on it leads to the next multiple of two,
/// from a quarter on of four and from a half on of eight, and where two of these are equally near to
/// the one that is a multiple of twice as much.
#[verifier::spinoff_prover]
#[verifier::rlimit(40)]
pub proof fn law_rounding_goes_to_the_next_number(n: int)
    requires
        0 <= n < ONE,
    ensures
        n < 0x0100_0000 ==> rounded(n) == n,
        0x0100_0000 <= n < 0x0200_0000 ==> rounded(n) % 2 == 0 && -1 <= rounded(n) - n <= 1,
        0x0200_0000 <= n < 0x0400_0000 ==> rounded(n) % 4 == 0 && -2 <= rounded(n) - n <= 2,
        0x0400_0000 <= n ==> rounded(n) % 8 == 0 && -4 <= rounded(n) - n <= 4,
        0x0100_0000 <= n < 0x0200_0000 && n % 2 == 1 ==> rounded(n) % 4 == 0,
        0x0200_0000 <= n < 0x0400_0000 && n % 4 == 2 ==> rounded(n) % 8 == 0,
        0x0400_0000 <= n && n % 8 == 4 ==> rounded(n) % 16 == 0,
{
    reveal(rounded);
}

/// A step is a tenth, to within the rounding, unless the limit is nearer, and never goes beyond it.
#[verifier::spinoff_prover]
#[verifier::rlimit(40)]
pub proof fn law_steps_are_tenths(n: int, limit: int)
    requires
        0 <= n,
        n + TENTH < ONE,
        0 <= limit,
    ensures
        stepped_up(n, limit) <= limit,
        stepped_down(n, limit) >= limit,
        n + TENTH + 4 < limit ==> -4 <= stepped_up(n, limit) - n - 13421773 <= 4,
        n - TENTH - 4 > limit ==> -4 <= n - stepped_down(n, limit) - 13421773 <= 4,
        n + TENTH - 4 >= limit ==> stepped_up(n, limit) == limit,
        n - TENTH + 4 <= limit ==> stepped_down(n, limit) == limit,
{
    reveal(rounded);
}

/// The tenths of a fraction are the whole number next to ten times it, unless it lies halfway
/// between two tenths, to within the rounding.
#[verifier::spinoff_prover]
#[verifier::rlimit(40)]
pub proof fn law_tenths_are_counted(n: int, tenth: int)
    requires
        0 <= n < ONE,
        -0x0400_0000 + 64 <= 10 * n - tenth * ONE < 0x0400_0000 - 64,
    ensures
        tenths(n) == tenth,
{
    reveal(rounded);
}

} // verus!
