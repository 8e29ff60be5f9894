//! Assembling new moons and solar terms into the months of the Tempo calendar.
use vstd::prelude::*;
use vstd::string::StringExecFns;
use vstd::arithmetic::div_mod::{lemma_div_multiples_vanish_fancy, lemma_mod_bound};
use crate::ephemeris::{answers_every_jd, reduced, FULL_CIRCLE};
use crate::error::TempoError;
use crate::locate::{
    calculate_leading_24sekki, calculate_leading_saku, is_conjunction, is_term_reached,
    saku_probe_step, saku_trace, term_floor, TERM_WIDTH,
};
use crate::rokuyo::{rokuyo_at, rokuyo_index, Rokuyo};
use crate::julian::{
    from_julian_date, is_valid_date, jd_end, jd_in_range, jd_min, to_julian_date, DateTime,
    MJD_EPOCH, SECONDS_PER_DAY, YEAR_MAX,
};

verus! {

/// The civil calendar of the Tempo dates runs 9 hours ahead of UTC.
pub const LOCAL_OFFSET: i64 = 32400;

/// Width of the principal terms (chuki): 30 degrees.
pub const CHUKI_WIDTH: i64 = 30000000000;

/// Index (of 24) of the winter solstice, toji, at 270 degrees.
pub const TOJI_INDEX: i64 = 18;

/// Index (of 24) of the term usui, at 330 degrees.
pub const USUI_INDEX: i64 = 22;

/// Most steps of a walk over solar terms or new moons.
pub const WALK_LIMIT: u32 = 48;

/// Backward step between solar terms: 13 days.
pub const SEKKI_BACK_STEP: i64 = 1123200;

/// Forward step between solar terms: 18 days.
pub const SEKKI_FORWARD_STEP: i64 = 1555200;

/// Backward step between new moons: 27 days.
pub const SAKU_BACK_STEP: i64 = 2332800;

/// Forward step between new moons: 30 days.
pub const SAKU_FORWARD_STEP: i64 = 2592000;

/// Forward step between new moons where the first step found the same one: 35 days.
pub const SAKU_RETRY_STEP: i64 = 3024000;

/// Two new moons closer than 26 days are the same one.
pub const SAKU_MIN_GAP: i64 = 2246400;

/// The JD (in seconds) of 00:00 UTC on the local (UTC+9) date of a JD.
pub open spec fn local_day_start(jd: int) -> int {
    ((jd + LOCAL_OFFSET - MJD_EPOCH) / (SECONDS_PER_DAY as int)) * SECONDS_PER_DAY + MJD_EPOCH
}

/// A JD whose local date can be taken.
pub open spec fn local_in_range(jd: int) -> bool {
    jd_min() <= jd + LOCAL_OFFSET < jd_end()
}

/// A solar term at 0, 30, 60, ... degrees: a principal term.
pub open spec fn is_chuki(term: (i64, i64)) -> bool {
    term.1 % CHUKI_WIDTH == 0
}

/// The month that a principal term names: the term at 0 degrees falls in
/// month 2, the one at 90 in month 5, the one at 270 in month 11.
pub open spec fn chuki_month(longitude: int) -> int {
    ((longitude / (CHUKI_WIDTH as int)) + 1) % 12 + 1
}

/// A principal term falls on a local date from the first day of a month
/// (starting at new moon `s0`) up to the day before the next new moon `s1`.
pub open spec fn chuki_within(c: (i64, i64), s0: int, s1: int) -> bool {
    local_day_start(s0) <= local_day_start(c.0 as int) < local_day_start(s1)
}

/// The first principal term, from index `k` on, that falls within a month.
pub open spec fn first_chuki(chukis: Seq<(i64, i64)>, s0: int, s1: int, k: int) -> Option<int>
    decreases chukis.len() - k,
{
    if k < 0 || k >= chukis.len() {
        None
    } else if chuki_within(chukis[k], s0, s1) {
        Some(k)
    } else {
        first_chuki(chukis, s0, s1, k + 1)
    }
}

/// Whether month `i` (from new moon `i` to new moon `i + 1`) holds no principal
/// term, which makes it a leap month.
pub open spec fn month_is_leap(sakus: Seq<i64>, chukis: Seq<(i64, i64)>, i: int) -> bool {
    first_chuki(chukis, sakus[i] as int, sakus[i + 1] as int, 0) is None
}

/// The number of month `i`: named by its first principal term, or for a leap
/// month the number of the month before it (0 for a leap month that comes first).
pub open spec fn month_number(sakus: Seq<i64>, chukis: Seq<(i64, i64)>, i: int) -> int
    decreases i,
{
    match first_chuki(chukis, sakus[i] as int, sakus[i + 1] as int, 0) {
        Some(k) => chuki_month(chukis[k].1 as int),
        None => if i > 0 {
            month_number(sakus, chukis, i - 1)
        } else {
            0
        },
    }
}

/// What `first_chuki` finds is a principal term within the month, and none
/// before it (from index `k` on) is.
proof fn lemma_first_chuki(chukis: Seq<(i64, i64)>, s0: int, s1: int, k: int)
    requires
        0 <= k,
    ensures
        first_chuki(chukis, s0, s1, k) matches Some(j) ==> {
            &&& k <= j < chukis.len()
            &&& chuki_within(chukis[j], s0, s1)
            &&& forall|i: int| k <= i < j ==> !chuki_within(#[trigger] chukis[i], s0, s1)
        },
        first_chuki(chukis, s0, s1, k) is None ==> forall|i: int|
            k <= i < chukis.len() ==> !chuki_within(#[trigger] chukis[i], s0, s1),
    decreases chukis.len() - k,
{
    if k < chukis.len() && !chuki_within(chukis[k], s0, s1) {
        lemma_first_chuki(chukis, s0, s1, k + 1);
    }
}

/// A month that is not a leap month takes its number from the first principal
/// term that falls within it; a leap month holds no principal term and takes
/// the number of the month before it.
pub proof fn lemma_month_numbering(sakus: Seq<i64>, chukis: Seq<(i64, i64)>, i: int)
    requires
        0 <= i,
        i + 1 < sakus.len(),
    ensures
        !month_is_leap(sakus, chukis, i) ==> exists|k: int|
            0 <= k < chukis.len() && chuki_within(
                #[trigger] chukis[k],
                sakus[i] as int,
                sakus[i + 1] as int,
            ) && month_number(sakus, chukis, i) == chuki_month(chukis[k].1 as int),
        month_is_leap(sakus, chukis, i) ==> forall|k: int|
            0 <= k < chukis.len() ==> !chuki_within(
                #[trigger] chukis[k],
                sakus[i] as int,
                sakus[i + 1] as int,
            ),
        month_is_leap(sakus, chukis, i) && i > 0 ==> month_number(sakus, chukis, i)
            == month_number(sakus, chukis, i - 1),
{
    lemma_first_chuki(chukis, sakus[i] as int, sakus[i + 1] as int, 0);
}

/// One lunar month: the JD of 00:00 UTC of its first local day, its number,
/// and whether it is a leap month.
#[derive(Debug, Clone, Copy, PartialEq, Eq, Structural)]
pub struct LunarMonth {
    pub start: i64,
    pub month: usize,
    pub leap_month: bool,
}

/// The JD of 00:00 UTC on the local date of a JD, through a round trip over
/// the Gregorian date.
pub fn local_midnight(jd: i64) -> (r: i64)
    requires
        local_in_range(jd as int),
    ensures
        r == local_day_start(jd as int),
{
    let dt = from_julian_date(jd + LOCAL_OFFSET);
    let midnight = DateTime {
        year: dt.year,
        month: dt.month,
        day: dt.day,
        hour: 0,
        minute: 0,
        second: 0,
    };
    let r = to_julian_date(&midnight);
    proof {
        let days = (midnight.jd() - MJD_EPOCH) / (SECONDS_PER_DAY as int);
        let mjd = crate::julian::mjd_of(dt.year as int, dt.month as int, dt.day as int);
        lemma_div_multiples_vanish_fancy(mjd, dt.seconds_of_day(), SECONDS_PER_DAY as int);
        assert(jd + LOCAL_OFFSET - MJD_EPOCH == SECONDS_PER_DAY * mjd + dt.seconds_of_day());
    }
    r
}

/// The Tempo year of a date: the Gregorian year, less one where the Tempo
/// month is 10 or later and after the Gregorian month (the lunisolar year
/// began in the Gregorian year before).
pub open spec fn tempo_year_of(gregorian_year: int, gregorian_month: int, month: int) -> int {
    if month >= 10 && month > gregorian_month {
        gregorian_year - 1
    } else {
        gregorian_year
    }
}

/// The principal terms among the solar terms, in their order.
pub fn principal_terms(sekkis: &Vec<(i64, i64)>) -> (r: Vec<(i64, i64)>)
    ensures
        r@ == sekkis@.filter(|c: (i64, i64)| is_chuki(c)),
        forall|k: int| 0 <= k < r.len() ==> sekkis@.contains(#[trigger] r@[k]),
{
    let mut r: Vec<(i64, i64)> = Vec::new();
    let mut i: usize = 0;
    while i < sekkis.len()
        invariant
            i <= sekkis.len(),
            r@ == sekkis@.subrange(0, i as int).filter(|c: (i64, i64)| is_chuki(c)),
            forall|k: int| 0 <= k < r.len() ==> sekkis@.contains(#[trigger] r@[k]),
        decreases sekkis.len() - i,
    {
        let c = sekkis[i];
        proof {
            let pred = |c: (i64, i64)| is_chuki(c);
            let next = sekkis@.subrange(0, i as int + 1);
            assert(next.drop_last() == sekkis@.subrange(0, i as int));
            assert(next.last() == c);
            assert(sekkis@[i as int] == c);
            reveal(Seq::filter);
        }
        if c.1 % CHUKI_WIDTH == 0 {
            r.push(c);
        }
        i = i + 1;
    }
    assert(sekkis@.subrange(0, sekkis.len() as int) == sekkis@);
    r
}

/// The first principal term that falls within the month from new moon `s0` to
/// new moon `s1`.
pub fn find_chuki(chukis: &Vec<(i64, i64)>, s0: i64, s1: i64) -> (r: Option<usize>)
    requires
        local_in_range(s0 as int),
        local_in_range(s1 as int),
        forall|k: int| 0 <= k < chukis.len() ==> local_in_range(#[trigger] chukis[k].0 as int),
    ensures
        r matches Some(k) ==> k < chukis.len() && first_chuki(chukis@, s0 as int, s1 as int, 0)
            == Some(k as int),
        r is None ==> first_chuki(chukis@, s0 as int, s1 as int, 0) is None,
{
    let start = local_midnight(s0);
    let end = local_midnight(s1);
    let mut k: usize = 0;
    while k < chukis.len()
        invariant
            k <= chukis.len(),
            start == local_day_start(s0 as int),
            end == local_day_start(s1 as int),
            forall|j: int| 0 <= j < chukis.len() ==> local_in_range(#[trigger] chukis[j].0 as int),
            first_chuki(chukis@, s0 as int, s1 as int, 0) == first_chuki(
                chukis@,
                s0 as int,
                s1 as int,
                k as int,
            ),
        decreases chukis.len() - k,
    {
        let day = local_midnight(chukis[k].0);
        if start <= day && day < end {
            return Some(k);
        }
        k = k + 1;
    }
    None
}

/// Pairs consecutive new moons into lunar months, numbers each by the principal
/// term within it, and gives each leap month the number of the month before it.
pub fn assemble_months(sakus: &Vec<i64>, chukis: &Vec<(i64, i64)>) -> (r: Vec<LunarMonth>)
    requires
        sakus.len() >= 1,
        forall|i: int| 0 <= i < sakus.len() ==> local_in_range(#[trigger] sakus[i] as int),
        forall|k: int| 0 <= k < chukis.len() ==> local_in_range(#[trigger] chukis[k].0 as int),
        forall|k: int| 0 <= k < chukis.len() ==> 0 <= #[trigger] chukis[k].1 < FULL_CIRCLE,
    ensures
        r.len() == sakus.len() - 1,
        forall|i: int|
            0 <= i < r.len() ==> {
                &&& (#[trigger] r[i]).start == local_day_start(sakus[i] as int)
                &&& r[i].month <= 12
                &&& r[i].leap_month == month_is_leap(sakus@, chukis@, i)
                &&& r[i].month == month_number(sakus@, chukis@, i)
            },
{
    let mut months: Vec<LunarMonth> = Vec::new();
    let mut i: usize = 0;
    while i + 1 < sakus.len()
        invariant
            i + 1 <= sakus.len(),
            months.len() == i,
            forall|i: int| 0 <= i < sakus.len() ==> local_in_range(#[trigger] sakus[i] as int),
            forall|k: int|
                0 <= k < chukis.len() ==> local_in_range(#[trigger] chukis[k].0 as int),
            forall|k: int| 0 <= k < chukis.len() ==> 0 <= #[trigger] chukis[k].1 < FULL_CIRCLE,
            forall|j: int|
                0 <= j < i ==> {
                    &&& (#[trigger] months[j]).start == local_day_start(sakus[j] as int)
                    &&& months[j].leap_month == month_is_leap(sakus@, chukis@, j)
                    &&& months[j].month == month_number(sakus@, chukis@, j)
                    &&& months[j].month <= 12
                },
        decreases sakus.len() - i,
    {
        let start = local_midnight(sakus[i]);
        let found = find_chuki(chukis, sakus[i], sakus[i + 1]);
        let month: usize = match found {
            Some(k) => {
                let index: i64 = chukis[k].1 / CHUKI_WIDTH;
                ((index + 1) % 12 + 1) as usize
            },
            None => if i > 0 {
                months[i - 1].month
            } else {
                0
            },
        };
        months.push(LunarMonth { start, month, leap_month: found.is_none() });
        i = i + 1;
    }
    months
}

/// The last lunar month that starts on or before a day.
pub fn select_month(months: &Vec<LunarMonth>, jd_date: i64) -> (r: Option<usize>)
    ensures
        r matches Some(i) ==> {
            &&& i < months.len()
            &&& months[i as int].start <= jd_date
            &&& forall|j: int| i < j < months.len() ==> jd_date < #[trigger] months[j].start
        },
        r is None ==> forall|j: int| 0 <= j < months.len() ==> jd_date < #[trigger] months[j].start,
{
    let mut found: Option<usize> = None;
    let mut i: usize = 0;
    while i < months.len()
        invariant
            i <= months.len(),
            found matches Some(f) ==> {
                &&& f < i
                &&& months[f as int].start <= jd_date
                &&& forall|j: int| f < j < i ==> jd_date < #[trigger] months[j].start
            },
            found is None ==> forall|j: int| 0 <= j < i ==> jd_date < #[trigger] months[j].start,
        decreases months.len() - i,
    {
        if months[i].start <= jd_date {
            found = Some(i);
        }
        i = i + 1;
    }
    found
}

/// A date of the Tempo calendar: the day of the month is counted from 1, and
/// `jd` is the JD (in seconds) of 00:00 UTC on the local first day of the month.
#[derive(Debug, Clone, Copy, PartialEq, Eq, Structural)]
pub struct TempoDate {
    pub year: usize,
    pub leap_month: bool,
    pub month: usize,
    pub day: usize,
    pub jd: i64,
}

impl Default for TempoDate {
    fn default() -> (r: TempoDate)
        ensures
            r == (TempoDate { year: 1, leap_month: false, month: 1, day: 1, jd: 0 }),
    {
        TempoDate { year: 1, leap_month: false, month: 1, day: 1, jd: 0 }
    }
}

/// The rokuyo of a month and day: `(month + day - 2) mod 6` along the cycle.
pub open spec fn rokuyo_of(month: int, day: int) -> Rokuyo {
    rokuyo_at(((month + day - 2) % 6) as nat)
}

/// The rokuyo depends on the month and day alone, and moves one step along
/// the cycle from each day to the next, so that it repeats every six days.
pub proof fn lemma_rokuyo_cycle(month: int, day: int)
    requires
        month + day >= 2,
    ensures
        rokuyo_index(rokuyo_of(month, day + 1)) == (rokuyo_index(rokuyo_of(month, day)) + 1) % 6,
        rokuyo_of(month, day + 6) == rokuyo_of(month, day),
{
    let x = month + day - 2;
    assert((x + 6) % 6 == x % 6);
    assert((x + 1) % 6 == (x % 6 + 1) % 6);
}

/// A date in Gregorian January that falls in Tempo month 12 belongs to the
/// Tempo year that began in the Gregorian year before.
pub proof fn lemma_year_boundary(gregorian_year: int)
    ensures
        tempo_year_of(gregorian_year, 1, 12) == gregorian_year - 1,
{
}

impl TempoDate {
    /// The rokuyo of the date.
    pub fn rokuyo(&self) -> (r: Rokuyo)
        requires
            self.month + self.day >= 2,
        ensures
            r == rokuyo_of(self.month as int, self.day as int),
    {
        let index: usize = (self.month % 6 + self.day % 6 + 4) % 6;
        proof {
            let (m, d) = (self.month as int, self.day as int);
            vstd::arithmetic::div_mod::lemma_fundamental_div_mod(m, 6);
            vstd::arithmetic::div_mod::lemma_fundamental_div_mod(d, 6);
            vstd::arithmetic::div_mod::lemma_mod_bound(m, 6);
            vstd::arithmetic::div_mod::lemma_mod_bound(d, 6);
            let k = m / 6 + d / 6 - 1;
            assert(m + d - 2 == (m % 6 + d % 6 + 4) + 6 * k);
            vstd::arithmetic::div_mod::lemma_mod_multiples_vanish(k, m % 6 + d % 6 + 4, 6);
        }
        match Rokuyo::from_number(index) {
            Ok(r) => r,
            Err(_) => Rokuyo::Sensho,
        }
    }
}

/// A decimal digit as a character.
pub open spec fn digit_char(d: int) -> char {
    seq!['0', '1', '2', '3', '4', '5', '6', '7', '8', '9'][d]
}

/// The decimal digits of a number, without leading zeros.
pub open spec fn decimal(n: nat) -> Seq<char>
    decreases n,
{
    if n < 10 {
        seq![digit_char(n as int)]
    } else {
        decimal(n / 10).push(digit_char((n % 10) as int))
    }
}

/// A number written with at least two digits.
pub open spec fn padded2(n: nat) -> Seq<char> {
    (if n < 10 { seq!['0'] } else { Seq::empty() }) + decimal(n)
}

/// A number written with at least four digits.
pub open spec fn padded4(n: nat) -> Seq<char> {
    (if n < 1000 { seq!['0'] } else { Seq::empty() }) + (if n < 100 { seq!['0'] } else {
        Seq::empty()
    }) + padded2(n)
}

/// A Tempo date written `YYYY/MM/DD`, with `L` before the month of a leap month.
pub open spec fn tempo_text(t: TempoDate) -> Seq<char> {
    padded4(t.year as nat) + (if t.leap_month { seq!['/', 'L'] } else { seq!['/'] }) + padded2(
        t.month as nat,
    ) + seq!['/'] + padded2(t.day as nat)
}

/// Appends one decimal digit.
fn push_digit(s: &mut String, d: usize)
    requires
        d < 10,
    ensures
        final(s)@ == old(s)@.push(digit_char(d as int)),
{
    let text: &str = match d {
        0 => "0",
        1 => "1",
        2 => "2",
        3 => "3",
        4 => "4",
        5 => "5",
        6 => "6",
        7 => "7",
        8 => "8",
        _ => "9",
    };
    proof {
        reveal_strlit("0");
        reveal_strlit("1");
        reveal_strlit("2");
        reveal_strlit("3");
        reveal_strlit("4");
        reveal_strlit("5");
        reveal_strlit("6");
        reveal_strlit("7");
        reveal_strlit("8");
        reveal_strlit("9");
    }
    let ghost before = s@;
    s.append(text);
    assert(s@ =~= before.push(digit_char(d as int)));
}

/// Appends the decimal digits of a number.
fn push_decimal(s: &mut String, n: usize)
    ensures
        final(s)@ == old(s)@ + decimal(n as nat),
    decreases n,
{
    let ghost before = s@;
    if n >= 10 {
        push_decimal(s, n / 10);
    }
    push_digit(s, n % 10);
    if n >= 10 {
        assert(s@ =~= before + decimal(n as nat));
    } else {
        assert(s@ =~= before + decimal(n as nat));
    }
}

impl TempoDate {
    /// The date written `YYYY/MM/DD`, with `L` before the month of a leap month.
    pub fn to_string(&self) -> (r: String)
        ensures
            r@ == tempo_text(*self),
    {
        let mut s = String::new();
        if self.year < 1000 {
            push_digit(&mut s, 0);
        }
        if self.year < 100 {
            push_digit(&mut s, 0);
        }
        if self.year < 10 {
            push_digit(&mut s, 0);
        }
        push_decimal(&mut s, self.year);
        proof {
            reveal_strlit("/");
            reveal_strlit("/L");
        }
        if self.leap_month {
            s.append("/L");
        } else {
            s.append("/");
        }
        if self.month < 10 {
            push_digit(&mut s, 0);
        }
        push_decimal(&mut s, self.month);
        s.append("/");
        if self.day < 10 {
            push_digit(&mut s, 0);
        }
        push_decimal(&mut s, self.day);
        assert(s@ =~= tempo_text(*self));
        s
    }
}

/// The Tempo date of a day (given as the JD of 00:00 UTC on its local date),
/// from the lunar months of its year and the Gregorian year and month of the
/// day: the date falls in the last month that starts on or before it.
pub fn select_tempo_date(
    months: &Vec<LunarMonth>,
    jd_date: i64,
    gregorian_year: i32,
    gregorian_month: u32,
) -> (r: Result<TempoDate, TempoError>)
    requires
        1 <= gregorian_year,
        jd_min() <= jd_date < jd_end(),
        forall|j: int| 0 <= j < months.len() ==> jd_min() <= #[trigger] months[j].start < jd_end(),
        forall|j: int| 0 <= j < months.len() ==> #[trigger] months[j].month <= 12,
    ensures
        (forall|j: int| 0 <= j < months.len() ==> jd_date < #[trigger] months[j].start)
            <==> r == Err::<TempoDate, TempoError>(TempoError::MonthNotFound),
        r matches Err(e) ==> e == TempoError::MonthNotFound,
        r matches Ok(t) ==> exists|i: int|
            0 <= i < months.len() && {
                &&& #[trigger] months[i].start <= jd_date
                &&& forall|j: int| i < j < months.len() ==> jd_date < #[trigger] months[j].start
                &&& t.jd == months[i].start
                &&& t.month == months[i].month
                &&& t.leap_month == months[i].leap_month
                &&& t.day == (jd_date - months[i].start) / (SECONDS_PER_DAY as int) + 1
                &&& t.year == tempo_year_of(
                    gregorian_year as int,
                    gregorian_month as int,
                    months[i].month as int,
                )
            },
{
    match select_month(months, jd_date) {
        None => Err(TempoError::MonthNotFound),
        Some(i) => {
            let m = months[i];
            let day: i64 = (jd_date - m.start) / SECONDS_PER_DAY + 1;
            let year: usize = if m.month >= 10 && m.month > gregorian_month as usize {
                (gregorian_year - 1) as usize
            } else {
                gregorian_year as usize
            };
            let t = TempoDate {
                year,
                leap_month: m.leap_month,
                month: m.month,
                day: day as usize,
                jd: m.start,
            };
            assert(months[i as int].start <= jd_date);
            Ok(t)
        },
    }
}

/// A local calendar date, with the offset of its time zone east of UTC in seconds.
#[derive(Debug, Clone, Copy, PartialEq, Eq, Structural)]
pub struct ZonedDate {
    pub year: i32,
    pub month: u32,
    pub day: u32,
    pub utc_offset: i32,
}

impl ZonedDate {
    /// The JD (in seconds) of local midnight at the start of the date.
    pub open spec fn midnight_jd(&self) -> int {
        (DateTime {
            year: self.year,
            month: self.month,
            day: self.day,
            hour: 0,
            minute: 0,
            second: 0,
        }).jd() - self.utc_offset
    }

    /// The dates that can be converted: real dates from year 1 on, with an offset
    /// under a day, whose midnight and local date lie within the supported years.
    pub open spec fn is_convertible(&self) -> bool {
        &&& 1 <= self.year
        &&& is_valid_date(self.year as int, self.month as int, self.day as int)
        &&& -SECONDS_PER_DAY < self.utc_offset < SECONDS_PER_DAY
        &&& jd_min() <= self.midnight_jd() < jd_end()
        &&& local_in_range(self.midnight_jd())
    }

    /// The JD (in seconds) of 00:00 UTC on the local date that the conversion
    /// takes the date to stand for.
    pub open spec fn target_day(&self) -> int {
        local_day_start(self.midnight_jd())
    }
}

/// The first day of a local date lies within the supported years.
proof fn lemma_day_start_in_range(jd: int)
    requires
        local_in_range(jd),
    ensures
        jd_min() <= local_day_start(jd) <= jd + LOCAL_OFFSET,
{
    let x = jd + LOCAL_OFFSET - MJD_EPOCH;
    let m = crate::julian::mjd_of(crate::julian::YEAR_MIN as int, 1, 1);
    vstd::arithmetic::div_mod::lemma_fundamental_div_mod(x, SECONDS_PER_DAY as int);
    lemma_mod_bound(x, SECONDS_PER_DAY as int);
    let q = x / (SECONDS_PER_DAY as int);
    assert(m <= q) by (nonlinear_arith)
        requires
            m * 86400 <= x,
            x < q * 86400 + 86400,
    ;
}

/// A solar term found by a search, with a local date and a longitude in range.
pub open spec fn term_in_range(t: (i64, i64)) -> bool {
    local_in_range(t.0 as int) && 0 <= t.1 < FULL_CIRCLE
}

/// The index (of 24) of a solar term.
pub open spec fn term_index(t: (i64, i64)) -> int {
    t.1 / TERM_WIDTH
}

/// A solar term as the search gives it: a multiple of 15 degrees that the Sun,
/// as the provider gave it at the term's JD, is within one second of.
pub open spec fn is_located_term<S: Fn(i64) -> i64>(sun: &S, t: (i64, i64)) -> bool {
    &&& 0 <= t.1 < FULL_CIRCLE
    &&& t.1 % TERM_WIDTH == 0
    &&& exists|l: i64|
        #[trigger] sun.ensures((t.0,), l) && is_term_reached(t.1 as int, reduced(l as int))
}

/// A new moon as the search gives it: the Moon is within one second of the
/// Sun, both as the providers gave them at that JD.
pub open spec fn is_located_saku<S: Fn(i64) -> i64, M: Fn(i64) -> i64>(
    sun: &S,
    moon: &M,
    x: i64,
) -> bool {
    exists|s: i64, m: i64|
        #[trigger] sun.ensures((x,), s) && #[trigger] moon.ensures((x,), m) && is_conjunction(
            reduced(s as int),
            reduced(m as int),
        )
}

/// `t` is the solar term that the search started at `probe` gives: the 15
/// degree term below the Sun at `probe`, located.
pub open spec fn is_term_from<S: Fn(i64) -> i64>(sun: &S, probe: int, t: (i64, i64)) -> bool {
    &&& is_located_term(sun, t)
    &&& exists|l: i64|
        #[trigger] sun.ensures((probe as i64,), l) && t.1 == term_floor(reduced(l as int))
}

/// `x` is the new moon that the search started at `probe` settles on.
pub open spec fn is_saku_from<S: Fn(i64) -> i64, M: Fn(i64) -> i64>(
    sun: &S,
    moon: &M,
    probe: int,
    x: i64,
) -> bool {
    exists|p: Seq<i64>, sv: Seq<i64>, mv: Seq<i64>|
        #[trigger] saku_trace(sun, moon, probe, p, sv, mv) && p.last() == x && saku_probe_step(
            p.len() - 1,
            sv,
            mv,
        ) == 0
}

/// The solar terms of a conversion that started at `jd`: term `a` is the one
/// found from `jd`, each term before it is found 13 days before the next one,
/// and each term after it 18 days after the one before.
pub open spec fn is_term_walk<S: Fn(i64) -> i64>(
    sun: &S,
    jd: int,
    sekkis: Seq<(i64, i64)>,
    a: int,
) -> bool {
    &&& 0 <= a < sekkis.len()
    &&& is_term_from(sun, jd, sekkis[a])
    &&& forall|k: int|
        0 <= k < a ==> is_term_from(sun, sekkis[k + 1].0 - SEKKI_BACK_STEP, #[trigger] sekkis[k])
    &&& forall|k: int|
        a <= k < sekkis.len() - 1 ==> is_term_from(
            sun,
            sekkis[k].0 + SEKKI_FORWARD_STEP,
            #[trigger] sekkis[k + 1],
        )
}

/// The step of the forward walk over new moons from `last` to `next`: the new
/// moon found 30 days on, or, where that is the same one again, the one found
/// 35 days on.
pub open spec fn is_saku_forward_step<S: Fn(i64) -> i64, M: Fn(i64) -> i64>(
    sun: &S,
    moon: &M,
    last: i64,
    next: i64,
) -> bool {
    ||| is_saku_from(sun, moon, last + SAKU_FORWARD_STEP, next) && !same_saku(last, next)
    ||| (exists|y: i64|
        #[trigger] is_saku_from(sun, moon, last + SAKU_FORWARD_STEP, y) && same_saku(last, y))
        && is_saku_from(sun, moon, last + SAKU_RETRY_STEP, next)
}

/// Two new moons less than 26 days apart are the same one.
pub open spec fn same_saku(last: i64, next: i64) -> bool {
    next - last < SAKU_MIN_GAP && last - next < SAKU_MIN_GAP
}

/// The new moons of a conversion that started at `jd`: new moon `c` is the one
/// found from `jd`, each one before it is found 27 days before the next one,
/// and each one after it by a forward step from the one before.
pub open spec fn is_saku_walk<S: Fn(i64) -> i64, M: Fn(i64) -> i64>(
    sun: &S,
    moon: &M,
    jd: int,
    sakus: Seq<i64>,
    c: int,
) -> bool {
    &&& 0 <= c < sakus.len()
    &&& is_saku_from(sun, moon, jd, sakus[c])
    &&& forall|k: int|
        0 <= k < c ==> is_saku_from(sun, moon, sakus[k + 1] - SAKU_BACK_STEP, #[trigger] sakus[k])
    &&& forall|k: int|
        c <= k < sakus.len() - 1 ==> is_saku_forward_step(
            sun,
            moon,
            sakus[k],
            #[trigger] sakus[k + 1],
        )
}

/// `t` is the Tempo date of the day starting at `target` (a JD of 00:00 UTC)
/// in the lunar months that the new moons `sakus` make and the principal
/// terms among `sekkis` number: the day falls in month `i`, which is no leap
/// month at its start, and before month `i + 1`.
pub open spec fn is_tempo_date_in(
    sakus: Seq<i64>,
    sekkis: Seq<(i64, i64)>,
    target: int,
    gregorian_year: int,
    gregorian_month: int,
    t: TempoDate,
) -> bool {
    let chukis = sekkis.filter(|c: (i64, i64)| is_chuki(c));
    exists|i: int|
        0 <= i < sakus.len() - 1 && {
            &&& #[trigger] local_day_start(sakus[i] as int) == t.jd
            &&& t.jd <= target < local_day_start(sakus[i + 1] as int)
            &&& t.month == month_number(sakus, chukis, i)
            &&& t.leap_month == month_is_leap(sakus, chukis, i)
            &&& t.day == (target - t.jd) / (SECONDS_PER_DAY as int) + 1
            &&& t.year == tempo_year_of(gregorian_year, gregorian_month, t.month as int)
        }
}

/// Locates the solar term last reached before `probe`, and checks that it lies
/// within the supported years.
fn sekki_near<S: Fn(i64) -> i64>(sun: &S, probe: i64) -> (r: Result<(i64, i64), TempoError>)
    requires
        answers_every_jd(sun),
    ensures
        r matches Ok(t) ==> term_in_range(t) && is_term_from(sun, probe as int, t),
        r matches Err(e) ==> e == TempoError::SearchExhausted || e
            == TempoError::SekkiNotConverged,
{
    if !jd_in_range(probe) {
        return Err(TempoError::SearchExhausted);
    }
    let t = match calculate_leading_24sekki(sun, probe) {
        Ok(v) => v,
        Err(e) => return Err(e),
    };
    if !jd_in_range(t.0 + LOCAL_OFFSET) {
        return Err(TempoError::SearchExhausted);
    }
    proof {
        let l = choose|l: i64| #[trigger] sun.ensures((probe,), l) && t.1 == term_floor(
            reduced(l as int),
        );
        assert(sun.ensures(((probe as int) as i64,), l));
    }
    Ok(t)
}

/// Locates the new moon nearest before `probe`, and checks that it lies within
/// the supported years.
fn saku_near<S: Fn(i64) -> i64, M: Fn(i64) -> i64>(sun: &S, moon: &M, probe: i64) -> (r: Result<
    i64,
    TempoError,
>)
    requires
        answers_every_jd(sun),
        answers_every_jd(moon),
    ensures
        r matches Ok(s) ==> local_in_range(s as int) && is_located_saku(sun, moon, s)
            && is_saku_from(sun, moon, probe as int, s),
        r matches Err(e) ==> e == TempoError::SearchExhausted || e
            == TempoError::SakuNotConverged,
{
    if !jd_in_range(probe) {
        return Err(TempoError::SearchExhausted);
    }
    let s = match calculate_leading_saku(sun, moon, probe) {
        Ok(v) => v,
        Err(e) => return Err(e),
    };
    if !jd_in_range(s + LOCAL_OFFSET) {
        return Err(TempoError::SearchExhausted);
    }
    Ok(s)
}

/// The walk over new moons stepped onto the same one again: two new moons
/// less than 26 days apart.
pub fn is_same_saku(last: i64, next: i64) -> (r: bool)
    ensures
        r == same_saku(last, next),
{
    (next as i128 - last as i128) < SAKU_MIN_GAP as i128 && (last as i128 - next as i128)
        < SAKU_MIN_GAP as i128
}

/// The solar terms from the winter solstice (toji) before `jd` to the term
/// usui after it: back from the term found from `jd` in 13-day steps until
/// toji, then on from that first term in 18-day steps until usui.
#[verifier::loop_isolation(false)]
fn collect_terms<S: Fn(i64) -> i64>(sun: &S, jd: i64) -> (r: Result<Vec<(i64, i64)>, TempoError>)
    requires
        answers_every_jd(sun),
    ensures
        r matches Ok(sekkis) ==> {
            &&& sekkis.len() >= 1
            &&& forall|k: int| 0 <= k < sekkis.len() ==> term_in_range(#[trigger] sekkis[k])
            &&& forall|k: int| 0 <= k < sekkis.len() ==> is_located_term(sun, #[trigger] sekkis[k])
            &&& term_index(sekkis[0]) == TOJI_INDEX
            &&& term_index(sekkis@.last()) == USUI_INDEX
            &&& exists|a: int| #[trigger] is_term_walk(sun, jd as int, sekkis@, a)
        },
        r matches Err(e) ==> e == TempoError::SearchExhausted || e
            == TempoError::SekkiNotConverged,
{
    // Solar terms: back from the date to the winter solstice, then on to usui.
    let first = match sekki_near(sun, jd) {
        Ok(v) => v,
        Err(e) => return Err(e),
    };
    let mut sekkis: Vec<(i64, i64)> = vec![first];
    let mut last = first;
    let mut n: u32 = 0;
    while last.1 / TERM_WIDTH != TOJI_INDEX
        invariant
            is_term_walk(sun, jd as int, sekkis@, sekkis.len() - 1),
            sekkis.len() >= 1,
            n <= WALK_LIMIT,
            last == sekkis[0],
            forall|k: int| 0 <= k < sekkis.len() ==> term_in_range(#[trigger] sekkis[k]),
            forall|k: int| 0 <= k < sekkis.len() ==> is_located_term(sun, #[trigger] sekkis[k]),
        decreases WALK_LIMIT - n,
    {
        if n >= WALK_LIMIT {
            return Err(TempoError::SearchExhausted);
        }
        let prev = match sekki_near(sun, last.0 - SEKKI_BACK_STEP) {
            Ok(v) => v,
            Err(e) => return Err(e),
        };
        let ghost old_sekkis = sekkis@;
        sekkis.insert(0, prev);
        proof {
            assert forall|k: int| 0 <= k < old_sekkis.len() implies sekkis@[k + 1]
                == old_sekkis[k] by {}
            assert(is_term_walk(sun, jd as int, sekkis@, sekkis.len() - 1)) by {
                assert forall|k: int| 0 <= k < sekkis.len() - 1 implies is_term_from(
                    sun,
                    sekkis@[k + 1].0 - SEKKI_BACK_STEP,
                    #[trigger] sekkis@[k],
                ) by {
                    if k > 0 {
                        assert(sekkis@[k] == old_sekkis[k - 1]);
                    }
                }
            }
        }
        last = prev;
        n = n + 1;
    }
    let ghost toji = sekkis[0];
    let ghost a: int = sekkis.len() - 1;
    last = sekkis[sekkis.len() - 1];
    n = 0;
    while last.1 / TERM_WIDTH != USUI_INDEX
        invariant
            is_term_walk(sun, jd as int, sekkis@, a),
            sekkis.len() >= 1,
            n <= WALK_LIMIT,
            sekkis[0] == toji,
            last == sekkis[sekkis.len() - 1],
            forall|k: int| 0 <= k < sekkis.len() ==> term_in_range(#[trigger] sekkis[k]),
            forall|k: int| 0 <= k < sekkis.len() ==> is_located_term(sun, #[trigger] sekkis[k]),
        decreases WALK_LIMIT - n,
    {
        if n >= WALK_LIMIT {
            return Err(TempoError::SearchExhausted);
        }
        let next = match sekki_near(sun, last.0 + SEKKI_FORWARD_STEP) {
            Ok(v) => v,
            Err(e) => return Err(e),
        };
        let ghost old_sekkis = sekkis@;
        sekkis.push(next);
        proof {
            assert forall|k: int| 0 <= k < old_sekkis.len() implies sekkis@[k]
                == old_sekkis[k] by {}
            assert(is_term_walk(sun, jd as int, sekkis@, a)) by {
                assert forall|k: int| 0 <= k < a implies is_term_from(
                    sun,
                    sekkis@[k + 1].0 - SEKKI_BACK_STEP,
                    #[trigger] sekkis@[k],
                ) by {
                    assert(sekkis@[k] == old_sekkis[k]);
                    assert(sekkis@[k + 1] == old_sekkis[k + 1]);
                }
                assert forall|k: int| a <= k < sekkis.len() - 1 implies is_term_from(
                    sun,
                    sekkis@[k].0 + SEKKI_FORWARD_STEP,
                    #[trigger] sekkis@[k + 1],
                ) by {
                    if k + 1 < old_sekkis.len() {
                        assert(sekkis@[k] == old_sekkis[k]);
                        assert(sekkis@[k + 1] == old_sekkis[k + 1]);
                    }
                }
            }
        }
        last = next;
        n = n + 1;
    }

    proof {
        assert(is_term_walk(sun, jd as int, sekkis@, a));
    }
    Ok(sekkis)
}

/// The new moons from one on or before `jd_toji` to one on or after `jd_usui`:
/// back from the new moon found from `jd` in 27-day steps, then on from that
/// first one by forward steps.
#[verifier::loop_isolation(false)]
fn collect_sakus<S: Fn(i64) -> i64, M: Fn(i64) -> i64>(
    sun: &S,
    moon: &M,
    jd: i64,
    jd_toji: i64,
    jd_usui: i64,
) -> (r: Result<Vec<i64>, TempoError>)
    requires
        answers_every_jd(sun),
        answers_every_jd(moon),
    ensures
        r matches Ok(sakus) ==> {
            &&& sakus.len() >= 1
            &&& forall|k: int| 0 <= k < sakus.len() ==> local_in_range(#[trigger] sakus[k] as int)
            &&& forall|k: int|
                0 <= k < sakus.len() ==> is_located_saku(sun, moon, #[trigger] sakus[k])
            &&& sakus[0] <= jd_toji
            &&& sakus@.last() >= jd_usui
            &&& exists|c: int| #[trigger] is_saku_walk(sun, moon, jd as int, sakus@, c)
        },
        r matches Err(e) ==> e == TempoError::SearchExhausted || e == TempoError::SakuNotConverged,
{
    // New moons: back to one on or before the solstice, then on to usui.
    let first_saku = match saku_near(sun, moon, jd) {
        Ok(v) => v,
        Err(e) => return Err(e),
    };
    let mut sakus: Vec<i64> = vec![first_saku];
    let mut last_saku = first_saku;
    let mut n: u32 = 0;
    while last_saku > jd_toji
        invariant
            is_saku_walk(sun, moon, jd as int, sakus@, sakus.len() - 1),
            sakus.len() >= 1,
            n <= WALK_LIMIT,
            last_saku == sakus[0],
            forall|k: int| 0 <= k < sakus.len() ==> local_in_range(#[trigger] sakus[k] as int),
            forall|k: int|
                0 <= k < sakus.len() ==> is_located_saku(sun, moon, #[trigger] sakus[k]),
        decreases WALK_LIMIT - n,
    {
        if n >= WALK_LIMIT {
            return Err(TempoError::SearchExhausted);
        }
        let prev = match saku_near(sun, moon, last_saku - SAKU_BACK_STEP) {
            Ok(v) => v,
            Err(e) => return Err(e),
        };
        let ghost old_sakus = sakus@;
        sakus.insert(0, prev);
        proof {
            assert forall|k: int| 0 <= k < old_sakus.len() implies sakus@[k + 1]
                == old_sakus[k] by {}
            assert(is_saku_walk(sun, moon, jd as int, sakus@, sakus.len() - 1)) by {
                assert forall|k: int| 0 <= k < sakus.len() - 1 implies is_saku_from(
                    sun,
                    moon,
                    sakus@[k + 1] - SAKU_BACK_STEP,
                    #[trigger] sakus@[k],
                ) by {
                    if k > 0 {
                        assert(sakus@[k] == old_sakus[k - 1]);
                    }
                }
            }
        }
        last_saku = prev;
        n = n + 1;
    }
    let ghost c: int = sakus.len() - 1;
    last_saku = sakus[sakus.len() - 1];
    n = 0;
    while last_saku < jd_usui
        invariant
            is_saku_walk(sun, moon, jd as int, sakus@, c),
            sakus.len() >= 1,
            n <= WALK_LIMIT,
            sakus[0] <= jd_toji,
            last_saku == sakus[sakus.len() - 1],
            forall|k: int| 0 <= k < sakus.len() ==> local_in_range(#[trigger] sakus[k] as int),
            forall|k: int|
                0 <= k < sakus.len() ==> is_located_saku(sun, moon, #[trigger] sakus[k]),
        decreases WALK_LIMIT - n,
    {
        if n >= WALK_LIMIT {
            return Err(TempoError::SearchExhausted);
        }
        let mut next = match saku_near(sun, moon, last_saku + SAKU_FORWARD_STEP) {
            Ok(v) => v,
            Err(e) => return Err(e),
        };
        let ghost first_try = next;
        if is_same_saku(last_saku, next) {
            next = match saku_near(sun, moon, last_saku + SAKU_RETRY_STEP) {
                Ok(v) => v,
                Err(e) => return Err(e),
            };
        }
        assert(is_saku_forward_step(sun, moon, last_saku, next)) by {
            if same_saku(last_saku, first_try) {
                assert(is_saku_from(sun, moon, last_saku + SAKU_FORWARD_STEP, first_try));
            }
        }
        let ghost old_sakus = sakus@;
        sakus.push(next);
        proof {
            assert forall|k: int| 0 <= k < old_sakus.len() implies sakus@[k]
                == old_sakus[k] by {}
            assert(is_saku_walk(sun, moon, jd as int, sakus@, c)) by {
                assert forall|k: int| 0 <= k < c implies is_saku_from(
                    sun,
                    moon,
                    sakus@[k + 1] - SAKU_BACK_STEP,
                    #[trigger] sakus@[k],
                ) by {
                    assert(sakus@[k] == old_sakus[k]);
                    assert(sakus@[k + 1] == old_sakus[k + 1]);
                }
                assert forall|k: int| c <= k < sakus.len() - 1 implies is_saku_forward_step(
                    sun,
                    moon,
                    sakus@[k],
                    #[trigger] sakus@[k + 1],
                ) by {
                    if k + 1 < old_sakus.len() {
                        assert(sakus@[k] == old_sakus[k]);
                        assert(sakus@[k + 1] == old_sakus[k + 1]);
                    }
                }
            }
        }
        last_saku = next;
        n = n + 1;
    }

    proof {
        assert(is_saku_walk(sun, moon, jd as int, sakus@, c));
    }
    Ok(sakus)
}

impl TempoDate {
    /// Converts a local Gregorian date into its Tempo date. The solar terms are
    /// collected from the winter solstice (toji) before the date up to the term
    /// usui after it, and the new moons from one on or before toji to one on or
    /// after usui; the new moons make the lunar months, which the principal
    /// terms number. A day past the last whole month, or in a leading leap month
    /// that has no number, is an error.
    #[verifier::loop_isolation(false)]
    pub fn from_gregory_date<S: Fn(i64) -> i64, M: Fn(i64) -> i64>(
        sun: &S,
        moon: &M,
        jst_date: &ZonedDate,
    ) -> (r: Result<TempoDate, TempoError>)
        requires
            answers_every_jd(sun),
            answers_every_jd(moon),
        ensures
            !jst_date.is_convertible() <==> r == Err::<TempoDate, TempoError>(
                TempoError::InvalidDate,
            ),
            jst_date.is_convertible() ==> (r matches Err(e) ==> e == TempoError::SekkiNotConverged
                || e == TempoError::SakuNotConverged || e == TempoError::SearchExhausted || e
                == TempoError::MonthNotFound || e == TempoError::MonthUnresolved),
            r matches Ok(t) ==> {
                &&& 1 <= t.month <= 12
                &&& exists|sakus: Seq<i64>, sekkis: Seq<(i64, i64)>|
                    {
                        &&& sekkis.len() >= 1
                        &&& forall|k: int|
                            0 <= k < sekkis.len() ==> is_located_term(sun, #[trigger] sekkis[k])
                        &&& term_index(sekkis[0]) == TOJI_INDEX
                        &&& term_index(sekkis.last()) == USUI_INDEX
                        &&& sakus.len() >= 2
                        &&& forall|k: int|
                            0 <= k < sakus.len() ==> is_located_saku(sun, moon, #[trigger] sakus[k])
                        &&& sakus[0] <= sekkis[0].0
                        &&& sakus.last() >= sekkis.last().0
                        &&& exists|a: int| #[trigger] is_term_walk(sun, jst_date.midnight_jd(), sekkis, a)
                        &&& exists|c: int|
                            #[trigger] is_saku_walk(sun, moon, jst_date.midnight_jd(), sakus, c)
                        &&& #[trigger] is_tempo_date_in(
                            sakus,
                            sekkis,
                            jst_date.target_day(),
                            jst_date.year as int,
                            jst_date.month as int,
                            t,
                        )
                    }
            },
    {
        if !(1 <= jst_date.year && crate::julian::is_valid_ymd(
            jst_date.year,
            jst_date.month,
            jst_date.day,
        ) && -SECONDS_PER_DAY < jst_date.utc_offset as i64 && (jst_date.utc_offset as i64)
            < SECONDS_PER_DAY) {
            return Err(TempoError::InvalidDate);
        }
        let midnight = DateTime {
            year: jst_date.year,
            month: jst_date.month,
            day: jst_date.day,
            hour: 0,
            minute: 0,
            second: 0,
        };
        let jd: i64 = to_julian_date(&midnight) - jst_date.utc_offset as i64;
        if !(jd_in_range(jd) && jd_in_range(jd + LOCAL_OFFSET)) {
            return Err(TempoError::InvalidDate);
        }
        let jd_date = local_midnight(jd);

        let sekkis = match collect_terms(sun, jd) {
            Ok(v) => v,
            Err(e) => return Err(e),
        };
        let sakus = match collect_sakus(sun, moon, jd, sekkis[0].0, sekkis[sekkis.len() - 1].0) {
            Ok(v) => v,
            Err(e) => return Err(e),
        };

        // Months, numbered by the principal terms within them.
        let chukis = principal_terms(&sekkis);
        proof {
            assert forall|k: int| 0 <= k < chukis.len() implies term_in_range(
                #[trigger] chukis[k],
            ) by {
                assert(sekkis@.contains(chukis@[k]));
                let j = choose|j: int| 0 <= j < sekkis.len() && sekkis@[j] == chukis@[k];
                assert(term_in_range(sekkis[j]));
            }
        }
        let months = assemble_months(&sakus, &chukis);
        proof {
            assert forall|j: int| 0 <= j < months.len() implies jd_min() <= #[trigger] months[j].start
                < jd_end() by {
                lemma_day_start_in_range(sakus[j] as int);
            }
        }
        let end = local_midnight(sakus[sakus.len() - 1]);
        if jd_date >= end {
            return Err(TempoError::MonthNotFound);
        }
        let t = match select_tempo_date(&months, jd_date, jst_date.year, jst_date.month) {
            Ok(t) => t,
            Err(e) => return Err(e),
        };
        if t.month == 0 {
            return Err(TempoError::MonthUnresolved);
        }
        proof {
            let i = choose|i: int|
                0 <= i < months.len() && {
                    &&& #[trigger] months[i].start <= jd_date
                    &&& forall|j: int| i < j < months.len() ==> jd_date < #[trigger] months[j].start
                    &&& t.jd == months[i].start
                    &&& t.month == months[i].month
                    &&& t.leap_month == months[i].leap_month
                    &&& t.day == (jd_date - months[i].start) / (SECONDS_PER_DAY as int) + 1
                    &&& t.year == tempo_year_of(
                        jst_date.year as int,
                        jst_date.month as int,
                        months[i].month as int,
                    )
                };
            if i + 1 < months.len() {
                assert(jd_date < months[i + 1].start);
            }
            assert(local_day_start(sakus@[i] as int) == t.jd);
            assert(jd_date < local_day_start(sakus@[i + 1] as int));
            assert(jd == jst_date.midnight_jd());
            assert(is_tempo_date_in(
                sakus@,
                sekkis@,
                jst_date.target_day(),
                jst_date.year as int,
                jst_date.month as int,
                t,
            ));
        }
        Ok(t)
    }
}

} // verus!
