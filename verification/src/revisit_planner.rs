//! The revisit schedule: a word is seen again after 1, 2, 4, ... 128 days.

use vstd::prelude::*;

verus! {

/// The shortest period of the schedule, in days.
pub const MIN_PERIOD_DAYS: u16 = 1;

/// The longest period of the schedule, in days.
pub const MAX_PERIOD_DAYS: u16 = 128;

/// The period that follows a wrong answer: half the current one, but never
/// below one day.
pub open spec fn last_period_days(current: int) -> int {
    if current == MIN_PERIOD_DAYS as int {
        MIN_PERIOD_DAYS as int
    } else {
        current / 2
    }
}

/// The period that follows a right answer: twice the current one, but never
/// above 128 days.
pub open spec fn next_period_days(current: int) -> int {
    if current == MAX_PERIOD_DAYS as int {
        MAX_PERIOD_DAYS as int
    } else {
        current * 2
    }
}

/// Whether `days` is one of the periods of the schedule.
pub open spec fn is_period(days: int) -> bool {
    days == 1 || days == 2 || days == 4 || days == 8 || days == 16 || days == 32 || days == 64
        || days == 128
}

/// The period of a word that was just taken.
pub fn get_init_period_days() -> (days: u16)
    ensures
        days == MIN_PERIOD_DAYS,
        is_period(days as int),
{
    MIN_PERIOD_DAYS
}

/// Steps the period back after a wrong answer.
pub fn get_last_period_days(current_period_days: u16) -> (days: u16)
    ensures
        days as int == last_period_days(current_period_days as int),
        is_period(current_period_days as int) ==> is_period(days as int),
{
    if current_period_days == MIN_PERIOD_DAYS {
        return MIN_PERIOD_DAYS;
    }
    current_period_days / 2
}

/// Steps the period forward after a right answer.
pub fn get_next_period_days(current_period_days: u16) -> (days: u16)
    requires
        next_period_days(current_period_days as int) <= u16::MAX,
    ensures
        days as int == next_period_days(current_period_days as int),
        is_period(current_period_days as int) ==> is_period(days as int),
{
    if current_period_days == MAX_PERIOD_DAYS {
        return MAX_PERIOD_DAYS;
    }
    current_period_days * 2
}

} // verus!
