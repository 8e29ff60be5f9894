//! Apparent ecliptic longitudes of the Sun and the Moon, as the calendar
//! engine consumes them.
use vstd::prelude::*;

verus! {

/// Nanodegrees in a full circle: longitudes are integers of 10^-9 degree.
pub const FULL_CIRCLE: i64 = 360000000000;

/// Nanodegrees in one degree.
pub const DEGREE: i64 = 1000000000;

/// A provider of longitudes: a function from a JD (in seconds) to an apparent
/// ecliptic longitude in nanodegrees, one for the Sun and one for the Moon. It
/// may return any integer (the engine reduces it modulo a full circle), and it
/// must answer every JD.
pub open spec fn answers_every_jd<F: Fn(i64) -> i64>(f: &F) -> bool {
    forall|jd: i64| #[trigger] f.requires((jd,))
}

/// A longitude reduced into `[0, FULL_CIRCLE)`.
pub open spec fn reduced(x: int) -> int {
    x % (FULL_CIRCLE as int)
}

/// Reduces a longitude into `[0, FULL_CIRCLE)`.
pub fn reduce_longitude(x: i64) -> (r: i64)
    ensures
        r == reduced(x as int),
        0 <= r < FULL_CIRCLE,
{
    if x >= 0 {
        x % FULL_CIRCLE
    } else {
        let t: i64 = -(x + 1);
        let r = FULL_CIRCLE - 1 - t % FULL_CIRCLE;
        assert(r == reduced(x as int)) by {
            vstd::arithmetic::div_mod::lemma_fundamental_div_mod(t as int, FULL_CIRCLE as int);
            vstd::arithmetic::div_mod::lemma_fundamental_div_mod(x as int, FULL_CIRCLE as int);
            vstd::arithmetic::div_mod::lemma_mod_bound(t as int, FULL_CIRCLE as int);
            vstd::arithmetic::div_mod::lemma_mod_bound(x as int, FULL_CIRCLE as int);
        }
        r
    }
}

} // verus!
