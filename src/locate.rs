//! Locating solar terms (sekki) and new moons (saku) by iterative refinement.
use vstd::prelude::*;
use crate::ephemeris::{answers_every_jd, reduce_longitude, reduced, DEGREE, FULL_CIRCLE};
use crate::error::TempoError;
use crate::julian::{jd_end, jd_min, SECONDS_PER_DAY};

verus! {

/// Width of one solar term: 15 degrees.
pub const TERM_WIDTH: i64 = 15000000000;

/// Half a circle: 180 degrees.
pub const HALF_CIRCLE: i64 = 180000000000;

/// The mean solar rate: 365.2 days (in seconds) per full circle.
pub const SOLAR_RATE_SECONDS: i64 = 31553280;

/// The synodic month, 29.530589 days, in units of 10^-4 second.
pub const SYNODIC_RATE: i64 = 25514428896;

/// Scale of `SYNODIC_RATE`.
pub const SYNODIC_RATE_SCALE: i64 = 10000;

/// Iteration budget of the solar-term search.
pub const SEKKI_MAX_ITERATIONS: u32 = 100;

/// Iterations of the new-moon search before it restarts from an earlier guess.
pub const SAKU_RESTART_ITERATION: u32 = 15;

/// Iteration budget of the new-moon search.
pub const SAKU_MAX_ITERATIONS: u32 = 30;

/// How far before the first guess the new-moon search restarts: 26 days.
pub const SAKU_RESTART_OFFSET: i64 = 2246400;

/// The largest step of either search, in seconds (over 183 days).
pub const MAX_STEP: i64 = 16000000;

/// Division rounded toward zero, for a positive divisor.
pub open spec fn trunc_div(a: int, b: int) -> int {
    if a >= 0 {
        a / b
    } else {
        -((-a) / b)
    }
}

/// The solar term (a multiple of 15 degrees) that a longitude has last reached.
pub open spec fn term_floor(lon: int) -> int {
    (lon / (TERM_WIDTH as int)) * (TERM_WIDTH as int)
}

/// An angle difference brought into `[-180, 180]` degrees by one turn.
pub open spec fn wrap_half(x: int) -> int {
    if x > HALF_CIRCLE {
        x - FULL_CIRCLE
    } else if x < -HALF_CIRCLE {
        x + FULL_CIRCLE
    } else {
        x
    }
}

/// The time step, in whole seconds toward zero, that the Sun takes at the
/// mean rate to cover an angle.
pub open spec fn solar_seconds(dl: int) -> int {
    trunc_div(dl * SOLAR_RATE_SECONDS, FULL_CIRCLE as int)
}

/// The time step, in whole seconds toward zero, that the Moon takes at the
/// synodic rate to gain an angle on the Sun.
pub open spec fn synodic_seconds(dl: int) -> int {
    trunc_div(dl * SYNODIC_RATE, FULL_CIRCLE * SYNODIC_RATE_SCALE)
}

/// The correction of the solar-term search for a longitude and a target term.
pub open spec fn sekki_step(target: int, lon: int) -> int {
    solar_seconds(wrap_half(lon - target))
}

/// The angle of the new-moon search, with its guards against wrap-around.
pub open spec fn saku_angle(first: bool, sun: int, moon: int) -> int {
    let d0 = moon - sun;
    let d1 = if first && d0 < 0 { d0 % (FULL_CIRCLE as int) } else { d0 };
    let d2 = if 0 <= sun < 20 * DEGREE && moon >= 300 * DEGREE {
        FULL_CIRCLE - d1 % (FULL_CIRCLE as int)
    } else {
        d1
    };
    if d2 > 40 * DEGREE || d2 < -40 * DEGREE {
        d2 % (FULL_CIRCLE as int)
    } else {
        d2
    }
}

/// The correction of the new-moon search.
pub open spec fn saku_step(first: bool, sun: int, moon: int) -> int {
    synodic_seconds(saku_angle(first, sun, moon))
}

/// The Moon is within one second (at the synodic rate) of the Sun's longitude,
/// measured either way round the circle.
pub open spec fn is_conjunction(sun: int, moon: int) -> bool {
    let gap = (moon - sun) % (FULL_CIRCLE as int);
    synodic_seconds(gap) == 0 || synodic_seconds(FULL_CIRCLE - gap) == 0
}

/// The Sun is within one second (at the mean rate) of a term's longitude.
pub open spec fn is_term_reached(target: int, sun: int) -> bool {
    sekki_step(target, sun) == 0
}

/// One correction of the solar-term search: the signed angle from the target
/// term to the longitude, wrapped into half a circle, as seconds at the mean
/// solar rate.
pub fn sekki_correction(target: i64, lon: i64) -> (r: i64)
    requires
        0 <= target < FULL_CIRCLE,
        0 <= lon < FULL_CIRCLE,
    ensures
        r == sekki_step(target as int, lon as int),
        -MAX_STEP <= r <= MAX_STEP,
{
    let x: i64 = lon - target;
    let dl: i64 = if x > HALF_CIRCLE {
        x - FULL_CIRCLE
    } else if x < -HALF_CIRCLE {
        x + FULL_CIRCLE
    } else {
        x
    };
    let num: i128 = dl as i128 * SOLAR_RATE_SECONDS as i128;
    let den: i128 = FULL_CIRCLE as i128;
    let q: i128 = if num >= 0 {
        num / den
    } else {
        -((-num) / den)
    };
    q as i64
}

/// One correction of the new-moon search: the guarded angle of the Moon past
/// the Sun, as seconds at the synodic rate.
pub fn saku_correction(first: bool, sun: i64, moon: i64) -> (r: i64)
    requires
        0 <= sun < FULL_CIRCLE,
        0 <= moon < FULL_CIRCLE,
    ensures
        r == saku_step(first, sun as int, moon as int),
        -MAX_STEP <= r <= MAX_STEP,
{
    let mut dl: i64 = moon - sun;
    if first && dl < 0 {
        dl = dl + FULL_CIRCLE;
    }
    if 0 <= sun && sun < 20 * DEGREE && moon >= 300 * DEGREE {
        dl = FULL_CIRCLE - reduce_longitude(dl);
    }
    if dl > 40 * DEGREE || dl < -40 * DEGREE {
        dl = reduce_longitude(dl);
    }
    let num: i128 = dl as i128 * SYNODIC_RATE as i128;
    let den: i128 = FULL_CIRCLE as i128 * SYNODIC_RATE_SCALE as i128;
    let q: i128 = if num >= 0 {
        num / den
    } else {
        -((-num) / den)
    };
    q as i64
}

/// How far the solar-term search may move from its first guess, in seconds.
pub const SEKKI_REACH: i64 = 1600000000;

/// How far the new-moon search may move from its first guess, in seconds.
pub const SAKU_REACH: i64 = 482246400;

/// A zero correction of the new-moon search means the Moon is at the Sun.
proof fn lemma_saku_settled(first: bool, sun: int, moon: int)
    requires
        0 <= sun < FULL_CIRCLE,
        0 <= moon < FULL_CIRCLE,
        saku_step(first, sun, moon) == 0,
    ensures
        is_conjunction(sun, moon),
{
    let f = FULL_CIRCLE as int;
    let d0 = moon - sun;
    let gap = d0 % f;
    assert(gap == if d0 >= 0 { d0 } else { d0 + f });
    assert(gap % f == gap);
    assert(gap > 0 ==> (f - gap) % f == f - gap);
    assert(f % f == 0);
    assert(synodic_seconds(0) == 0);
    assert(synodic_seconds(d0) == 0 && d0 < 0 ==> synodic_seconds(-d0) == 0);
}

/// Locates the solar term that the Sun last reached before a JD (in seconds):
/// the target is the Sun's longitude at `jd_now` rounded down to a multiple of
/// 15 degrees, and the JD is refined by steps at the mean solar rate until the
/// step is under one second. Returns the JD found and the target longitude.
pub fn calculate_leading_24sekki<S: Fn(i64) -> i64>(sun: &S, jd_now: i64) -> (r: Result<
    (i64, i64),
    TempoError,
>)
    requires
        answers_every_jd(sun),
        jd_min() <= jd_now < jd_end(),
    ensures
        match r {
            Ok((jd, term)) => {
                &&& exists|l: i64|
                    #[trigger] sun.ensures((jd_now,), l) && term == term_floor(reduced(l as int))
                &&& 0 <= term < FULL_CIRCLE
                &&& term % TERM_WIDTH == 0
                &&& exists|l: i64|
                    #[trigger] sun.ensures((jd,), l) && is_term_reached(
                        term as int,
                        reduced(l as int),
                    )
                &&& jd_now - SEKKI_REACH <= jd <= jd_now + SEKKI_REACH
            },
            Err(e) => e == TempoError::SekkiNotConverged,
        },
{
    let raw_now = sun(jd_now);
    let lon_now = reduce_longitude(raw_now);
    let target: i64 = (lon_now / TERM_WIDTH) * TERM_WIDTH;
    let mut jd: i64 = jd_now;
    let mut iter: u32 = 0;
    while iter < SEKKI_MAX_ITERATIONS
        invariant
            iter <= SEKKI_MAX_ITERATIONS,
            jd_min() <= jd_now < jd_end(),
            jd_now - iter * MAX_STEP <= jd <= jd_now + iter * MAX_STEP,
            answers_every_jd(sun),
            sun.ensures((jd_now,), raw_now),
            target == term_floor(reduced(raw_now as int)),
            0 <= target < FULL_CIRCLE,
            target % TERM_WIDTH == 0,
        decreases SEKKI_MAX_ITERATIONS - iter,
    {
        let raw = sun(jd);
        let lon = reduce_longitude(raw);
        let dt = sekki_correction(target, lon);
        if dt == 0 {
            return Ok((jd, target));
        }
        jd = jd - dt;
        iter = iter + 1;
    }
    Err(TempoError::SekkiNotConverged)
}

/// The correction that the new-moon search takes at its probe `k`, from the
/// longitudes the providers gave there.
pub open spec fn saku_probe_step(k: int, sv: Seq<i64>, mv: Seq<i64>) -> int {
    saku_step(k == 0, reduced(sv[k] as int), reduced(mv[k] as int))
}

/// The probe that follows probe `k` of the new-moon search: the restart
/// 26 days before the first guess after `SAKU_RESTART_ITERATION` probes,
/// otherwise the probe less its correction.
pub open spec fn saku_next_probe(jd_now: int, k: int, probe: int, step: int) -> int {
    if k + 1 == SAKU_RESTART_ITERATION {
        jd_now - SAKU_RESTART_OFFSET
    } else {
        probe - step
    }
}

/// A run of the new-moon search from `jd_now`: the probes `p`, the longitudes
/// `sv` and `mv` that the providers gave at each, every probe but the last
/// unsettled, and each probe following from the one before.
pub open spec fn saku_trace<S: Fn(i64) -> i64, M: Fn(i64) -> i64>(
    sun: &S,
    moon: &M,
    jd_now: int,
    p: Seq<i64>,
    sv: Seq<i64>,
    mv: Seq<i64>,
) -> bool {
    &&& 1 <= p.len() <= SAKU_MAX_ITERATIONS
    &&& sv.len() == p.len()
    &&& mv.len() == p.len()
    &&& p[0] == jd_now
    &&& forall|k: int|
        0 <= k < p.len() ==> sun.ensures((#[trigger] p[k],), sv[k]) && moon.ensures((p[k],), mv[k])
    &&& forall|k: int|
        0 <= k < p.len() - 1 ==> #[trigger] saku_probe_step(k, sv, mv) != 0 && p[k + 1]
            == saku_next_probe(jd_now, k, p[k] as int, saku_probe_step(k, sv, mv))
}

/// Locates the new moon nearest before a JD (in seconds): the angle of the
/// Moon past the Sun is driven to zero by steps at the synodic rate until the
/// step is under one second. After `SAKU_RESTART_ITERATION` iterations the
/// search restarts 26 days before the first guess; after `SAKU_MAX_ITERATIONS`
/// it fails.
pub fn calculate_leading_saku<S: Fn(i64) -> i64, M: Fn(i64) -> i64>(
    sun: &S,
    moon: &M,
    jd_now: i64,
) -> (r: Result<i64, TempoError>)
    requires
        answers_every_jd(sun),
        answers_every_jd(moon),
        jd_min() <= jd_now < jd_end(),
    ensures
        match r {
            Ok(jd) => {
                &&& exists|s: i64, m: i64|
                    #[trigger] sun.ensures((jd,), s) && #[trigger] moon.ensures((jd,), m)
                        && is_conjunction(reduced(s as int), reduced(m as int))
                &&& jd_now - SAKU_REACH <= jd <= jd_now + SAKU_REACH
                &&& exists|p: Seq<i64>, sv: Seq<i64>, mv: Seq<i64>|
                    #[trigger] saku_trace(sun, moon, jd_now as int, p, sv, mv) && p.last() == jd
                        && saku_probe_step(p.len() - 1, sv, mv) == 0
            },
            Err(e) => {
                &&& e == TempoError::SakuNotConverged
                &&& exists|p: Seq<i64>, sv: Seq<i64>, mv: Seq<i64>|
                    #[trigger] saku_trace(sun, moon, jd_now as int, p, sv, mv) && p.len()
                        == SAKU_MAX_ITERATIONS && saku_probe_step(p.len() - 1, sv, mv) != 0
            },
        },
{
    let mut jd: i64 = jd_now;
    let mut iter: u32 = 0;
    let ghost mut p: Seq<i64> = Seq::empty();
    let ghost mut sv: Seq<i64> = Seq::empty();
    let ghost mut mv: Seq<i64> = Seq::empty();
    while iter < SAKU_MAX_ITERATIONS
        invariant
            iter <= SAKU_MAX_ITERATIONS,
            p.len() == iter,
            sv.len() == iter,
            mv.len() == iter,
            iter > 0 ==> p[0] == jd_now,
            iter == 0 ==> jd == jd_now,
            iter > 0 ==> jd == saku_next_probe(
                jd_now as int,
                iter - 1,
                p[iter - 1] as int,
                saku_probe_step(iter - 1, sv, mv),
            ),
            forall|k: int|
                0 <= k < p.len() ==> sun.ensures((#[trigger] p[k],), sv[k]) && moon.ensures(
                    (p[k],),
                    mv[k],
                ),
            forall|k: int|
                0 <= k < p.len() - 1 ==> #[trigger] saku_probe_step(k, sv, mv) != 0 && p[k + 1]
                    == saku_next_probe(jd_now as int, k, p[k] as int, saku_probe_step(k, sv, mv)),
            iter > 0 ==> saku_probe_step(iter - 1, sv, mv) != 0,
            jd_min() <= jd_now < jd_end(),
            jd_now - SAKU_RESTART_OFFSET - iter * MAX_STEP <= jd <= jd_now + iter * MAX_STEP,
            answers_every_jd(sun),
            answers_every_jd(moon),
        decreases SAKU_MAX_ITERATIONS - iter,
    {
        let raw_sun = sun(jd);
        let raw_moon = moon(jd);
        let s = reduce_longitude(raw_sun);
        let m = reduce_longitude(raw_moon);
        let dt = saku_correction(iter == 0, s, m);
        proof {
            let (p0, sv0, mv0) = (p, sv, mv);
            p = p.push(jd);
            sv = sv.push(raw_sun);
            mv = mv.push(raw_moon);
            assert forall|k: int| 0 <= k < iter implies #[trigger] saku_probe_step(k, sv, mv)
                == saku_probe_step(k, sv0, mv0) && p[k] == p0[k] by {
                assert(sv[k] == sv0[k]);
                assert(mv[k] == mv0[k]);
            }
            assert forall|k: int| 0 <= k < p.len() implies sun.ensures((#[trigger] p[k],), sv[k])
                && moon.ensures((p[k],), mv[k]) by {
                if k < iter {
                    assert(p[k] == p0[k] && sv[k] == sv0[k] && mv[k] == mv0[k]);
                }
            }
            assert(saku_probe_step(iter as int, sv, mv) == dt);
            assert(saku_trace(sun, moon, jd_now as int, p, sv, mv));
        }
        if dt == 0 {
            proof {
                lemma_saku_settled(iter == 0, s as int, m as int);
                assert(p.last() == jd);
                assert(saku_probe_step(p.len() - 1, sv, mv) == 0);
                assert(saku_trace(sun, moon, jd_now as int, p, sv, mv) && p.last() == jd
                    && saku_probe_step(p.len() - 1, sv, mv) == 0);
            }
            return Ok(jd);
        }
        jd = jd - dt;
        if iter + 1 == SAKU_RESTART_ITERATION {
            jd = jd_now - SAKU_RESTART_OFFSET;
        }
        iter = iter + 1;
    }
    proof {
        assert(saku_trace(sun, moon, jd_now as int, p, sv, mv));
    }
    Err(TempoError::SakuNotConverged)
}

} // verus!
