use vstd::prelude::*;

verus! {

/// Number of days in the planning period.
pub const DAYS_IN_PERIOD: u32 = 7;

/// Number of hours in a day.
pub const HOURS_IN_DAY: u32 = 24;

/// Total hours in the planning period.
pub const HOURS_IN_PERIOD: u32 = DAYS_IN_PERIOD * HOURS_IN_DAY;

/// Departure time (in hours) relative to 00:00 of the start day.
pub const REL_DEPARTURE_TIME: u32 = 16;

/// Maximum number of installations per voyage.
pub const MAX_INST_PER_VOYAGE: u32 = 5;

/// Maximum number of attempts to initialise a solution.
pub const MAX_ATTEMPTS_TO_INIT: u32 = 10;

} // verus!
