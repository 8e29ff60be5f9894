use vstd::prelude::*;

verus! {

/// The ways a conversion can fail.
#[derive(Debug, Clone, Copy, PartialEq, Eq, Structural)]
pub enum TempoError {
    /// A rokuyo index outside `0..6`.
    OutOfRokuyoIndex,
    /// A calendar date that is not a real date, or lies outside the supported years.
    InvalidDate,
    /// The solar-term search did not settle within its iteration budget.
    SekkiNotConverged,
    /// The new-moon search did not settle within its iteration budget.
    SakuNotConverged,
    /// A walk over solar terms or new moons did not reach its goal within its budget.
    SearchExhausted,
    /// No whole lunar month of the assembled year holds the target day.
    MonthNotFound,
    /// The month of the date is a leap month with no month before it to take
    /// its number from.
    MonthUnresolved,
}

} // verus!
