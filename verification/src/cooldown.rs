//! The cool-down row that closes every workout.

use vstd::prelude::*;
use crate::catalog::{Exercise, ExerciseView};
use crate::generator::row_group;
use crate::presentation::{row_of, WorkoutExercise, WorkoutExerciseView};
use crate::random::remove_random;
use crate::sequences::{swap_removed, views};
use crate::snooze::{entry, record, SnoozedExercise, SnoozedExerciseView};

verus! {

/// Why a workout could not be generated.
#[derive(Debug, Clone, Copy, PartialEq, Eq, Structural)]
pub enum WorkoutError {
    /// The cool-down pool was empty when the cool-down exercise was to be
    /// picked.
    NoCooldownAvailable,
}

impl WorkoutError {
    /// A sentence that describes the error.
    pub fn message(&self) -> (text: String)
        ensures
            text@ == "no cool-down exercise is available: the cool-down pool is empty"@,
    {
        match self {
            WorkoutError::NoCooldownAvailable => {
                "no cool-down exercise is available: the cool-down pool is empty".to_owned()
            },
        }
    }
}

/// Closes a workout of `num_groups` groups with `exercise` as its cool-down:
/// the exercise is recorded in `snoozed` at the instant `now`, and its row is
/// added to `workout` in the group after the last strength group.
pub fn place_cooldown(
    workout: &mut Vec<WorkoutExercise>,
    snoozed: &mut Vec<SnoozedExercise>,
    exercise: &Exercise,
    num_groups: u32,
    now: i64,
)
    requires
        num_groups <= u32::MAX - 2,
    ensures
        views(final(workout)@) == views(old(workout)@).push(
            row_of(row_group(num_groups), exercise@),
        ),
        views(final(snoozed)@) == views(old(snoozed)@).push(entry(exercise@.name, now as int)),
{
    snoozed.push(record(exercise.name.as_str(), now));
    workout.push(WorkoutExercise::from_exercise(num_groups + 2, exercise));
}

/// Whether the three collections went from their `before` to their `after`
/// state by taking the exercise at `choice` out of the cool-down pool and
/// placing it as the cool-down of a workout of `num_groups` groups at `now`.
pub open spec fn cooldown_taken(
    choice: int,
    num_groups: u32,
    now: int,
    pool_before: Seq<ExerciseView>,
    pool_after: Seq<ExerciseView>,
    workout_before: Seq<WorkoutExerciseView>,
    workout_after: Seq<WorkoutExerciseView>,
    snoozed_before: Seq<SnoozedExerciseView>,
    snoozed_after: Seq<SnoozedExerciseView>,
) -> bool {
    &&& 0 <= choice < pool_before.len()
    &&& pool_after == swap_removed(pool_before, choice)
    &&& workout_after == workout_before.push(row_of(row_group(num_groups), pool_before[choice]))
    &&& snoozed_after == snoozed_before.push(entry(pool_before[choice].name, now))
}

/// Picks one exercise of the cool-down pool at random and closes the workout
/// with it. The pick leaves the pool, is recorded in `snoozed` at the instant
/// `now` and gets the last row of the workout. With an empty pool nothing is
/// changed and the error is returned.
pub fn add_cooldown_exercise(
    workout: &mut Vec<WorkoutExercise>,
    cooldown_exercises: &mut Vec<Exercise>,
    snoozed: &mut Vec<SnoozedExercise>,
    num_groups: u32,
    now: i64,
) -> (done: Result<(), WorkoutError>)
    requires
        num_groups <= u32::MAX - 2,
    ensures
        done is Err <==> old(cooldown_exercises)@.len() == 0,
        done is Err ==> done == Err::<(), WorkoutError>(WorkoutError::NoCooldownAvailable)
            && final(workout)@ == old(workout)@ && final(cooldown_exercises)@ == old(
            cooldown_exercises,
        )@ && final(snoozed)@ == old(snoozed)@,
        done is Ok ==> exists|choice: int| #[trigger]
            cooldown_taken(
                choice,
                num_groups,
                now as int,
                views(old(cooldown_exercises)@),
                views(final(cooldown_exercises)@),
                views(old(workout)@),
                views(final(workout)@),
                views(old(snoozed)@),
                views(final(snoozed)@),
            ),
{
    match remove_random(cooldown_exercises) {
        Some(exercise) => {
            let ghost choice = choose|i: int|
                0 <= i < old(cooldown_exercises)@.len() && exercise == old(cooldown_exercises)@[i]
                    && cooldown_exercises@ == #[trigger] swap_removed(old(cooldown_exercises)@, i);
            place_cooldown(workout, snoozed, &exercise, num_groups, now);
            proof {
                assert(views(cooldown_exercises@) == swap_removed(
                    views(old(cooldown_exercises)@),
                    choice,
                ));
                assert(cooldown_taken(
                    choice,
                    num_groups,
                    now as int,
                    views(old(cooldown_exercises)@),
                    views(cooldown_exercises@),
                    views(old(workout)@),
                    views(workout@),
                    views(old(snoozed)@),
                    views(snoozed@),
                ));
            }
            Ok(())
        },
        None => Err(WorkoutError::NoCooldownAvailable),
    }
}

} // verus!
