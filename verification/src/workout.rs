//! Choosing a workout from a requested intensity.

use vstd::prelude::*;

verus! {

/// Below this intensity the workout is strength training; from it on, a run.
pub const LOW_INTENSITY_LIMIT: u32 = 25;

/// The number that turns a high-intensity day into a day of rest.
pub const REST_NUMBER: u32 = 3;

/// What to do today.
#[derive(Debug, Clone, Copy, PartialEq, Eq, Structural)]
pub enum Workout {
    /// Do this many pushups, then this many situps.
    Strength { repetitions: u32 },
    /// Take a break and stay hydrated.
    Rest,
    /// Run for this many minutes.
    Run { minutes: u32 },
}

/// The workout for an intensity, the amount computed for it, and a number
/// drawn for the day.
pub open spec fn workout_for(intensity: u32, amount: u32, random_number: u32) -> Workout {
    if intensity < LOW_INTENSITY_LIMIT {
        Workout::Strength { repetitions: amount }
    } else if random_number == REST_NUMBER {
        Workout::Rest
    } else {
        Workout::Run { minutes: amount }
    }
}

/// Decides on today's workout. `amount` is the figure that the caller has
/// computed from `intensity`; it becomes the repetitions or the minutes.
pub fn generate_workout(intensity: u32, amount: u32, random_number: u32) -> (r: Workout)
    ensures
        r == workout_for(intensity, amount, random_number),
{
    if intensity < LOW_INTENSITY_LIMIT {
        Workout::Strength { repetitions: amount }
    } else if random_number == REST_NUMBER {
        Workout::Rest
    } else {
        Workout::Run { minutes: amount }
    }
}

} // verus!
