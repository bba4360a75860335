//! The presentation mapper: from a picked exercise to a printable workout row.

use vstd::prelude::*;
use crate::catalog::{Exercise, ExerciseProgramming, ExerciseView};
use crate::text::{title_case, to_title_case};

verus! {

/// One row of a generated workout. Exactly one of `distance`, `time` and
/// `reps` of a row made from an exercise holds the marker `X`; `sets` is left
/// empty to be filled in by hand.
#[derive(Debug)]
pub struct WorkoutExercise {
    pub group: u32,
    pub name: String,
    pub sets: String,
    pub distance: String,
    pub time: String,
    pub reps: String,
    pub goal: String,
    pub video: String,
}

/// The mathematical content of a [`WorkoutExercise`].
pub struct WorkoutExerciseView {
    pub group: u32,
    pub name: Seq<char>,
    pub sets: Seq<char>,
    pub distance: Seq<char>,
    pub time: Seq<char>,
    pub reps: Seq<char>,
    pub goal: Seq<char>,
    pub video: Seq<char>,
}

impl View for WorkoutExercise {
    type V = WorkoutExerciseView;

    open spec fn view(&self) -> WorkoutExerciseView {
        WorkoutExerciseView {
            group: self.group,
            name: self.name@,
            sets: self.sets@,
            distance: self.distance@,
            time: self.time@,
            reps: self.reps@,
            goal: self.goal@,
            video: self.video@,
        }
    }
}

impl Clone for WorkoutExercise {
    fn clone(&self) -> (copy: Self)
        ensures
            copy@ == self@,
    {
        WorkoutExercise {
            group: self.group,
            name: self.name.clone(),
            sets: self.sets.clone(),
            distance: self.distance.clone(),
            time: self.time.clone(),
            reps: self.reps.clone(),
            goal: self.goal.clone(),
            video: self.video.clone(),
        }
    }
}

/// The text that marks the column an exercise is tracked by.
pub open spec fn marker() -> Seq<char> {
    seq!['X']
}

/// The marker if `on`, the empty text otherwise.
pub open spec fn mark_if(on: bool) -> Seq<char> {
    if on {
        marker()
    } else {
        Seq::empty()
    }
}

/// The name of the warm-up placeholder that opens every workout.
pub open spec fn skill_block_name() -> Seq<char> {
    seq!['S', 'k', 'i', 'l', 'l', ' ', 'B', 'l', 'o', 'c', 'k']
}

/// The row that stands for exercise `e` in group `group`.
pub open spec fn row_of(group: u32, e: ExerciseView) -> WorkoutExerciseView {
    WorkoutExerciseView {
        group,
        name: title_case(e.name),
        sets: Seq::empty(),
        distance: mark_if(e.exercise_programming == ExerciseProgramming::Distance),
        time: mark_if(e.exercise_programming == ExerciseProgramming::Time),
        reps: mark_if(e.exercise_programming == ExerciseProgramming::Reps),
        goal: match e.goal {
            Some(g) => g,
            None => Seq::empty(),
        },
        video: e.video,
    }
}

/// The warm-up placeholder row: group 1, named `Skill Block`, all other
/// columns empty.
pub open spec fn skill_block_row() -> WorkoutExerciseView {
    WorkoutExerciseView {
        group: 1,
        name: skill_block_name(),
        sets: Seq::empty(),
        distance: Seq::empty(),
        time: Seq::empty(),
        reps: Seq::empty(),
        goal: Seq::empty(),
        video: Seq::empty(),
    }
}

/// How many of the columns `distance`, `time` and `reps` of `row` hold the
/// marker.
pub open spec fn marked_columns(row: WorkoutExerciseView) -> nat {
    let d: nat = if row.distance == marker() { 1 } else { 0 };
    let t: nat = if row.time == marker() { 1 } else { 0 };
    let r: nat = if row.reps == marker() { 1 } else { 0 };
    d + t + r
}

/// A row made from an exercise marks exactly one of the three columns
/// `distance`, `time` and `reps` and leaves the other two empty; `sets` is
/// empty as well.
pub proof fn lemma_row_marks_one_column(group: u32, e: ExerciseView)
    ensures
        marked_columns(row_of(group, e)) == 1,
        row_of(group, e).distance == marker() || row_of(group, e).distance.len() == 0,
        row_of(group, e).time == marker() || row_of(group, e).time.len() == 0,
        row_of(group, e).reps == marker() || row_of(group, e).reps.len() == 0,
        row_of(group, e).sets.len() == 0,
{
}

/// Which column a row marks depends on the programming style of the
/// exercise alone: two exercises of the same style mark the same column,
/// whatever else differs between them, and in whatever group they stand.
pub proof fn lemma_marks_depend_on_programming(
    group1: u32,
    e1: ExerciseView,
    group2: u32,
    e2: ExerciseView,
)
    requires
        e1.exercise_programming == e2.exercise_programming,
    ensures
        row_of(group1, e1).distance == row_of(group2, e2).distance,
        row_of(group1, e1).time == row_of(group2, e2).time,
        row_of(group1, e1).reps == row_of(group2, e2).reps,
{
}

/// The marker text if `on`, an empty string otherwise.
fn mark(on: bool) -> (text: String)
    ensures
        text@ == mark_if(on),
{
    if on {
        proof {
            reveal_strlit("X");
        }
        "X".to_owned()
    } else {
        String::new()
    }
}

impl WorkoutExercise {
    /// The row that stands for `exercise` in group `group`.
    pub fn from_exercise(group: u32, exercise: &Exercise) -> (row: WorkoutExercise)
        ensures
            row@ == row_of(group, exercise@),
    {
        let distance = mark(exercise.exercise_programming == ExerciseProgramming::Distance);
        let time = mark(exercise.exercise_programming == ExerciseProgramming::Time);
        let reps = mark(exercise.exercise_programming == ExerciseProgramming::Reps);
        WorkoutExercise {
            group,
            name: to_title_case(exercise.name.as_str()),
            sets: String::new(),
            distance,
            time,
            reps,
            goal: match &exercise.goal {
                Some(g) => g.clone(),
                None => String::new(),
            },
            video: exercise.video.clone(),
        }
    }

    /// The warm-up placeholder row that opens every workout.
    pub fn skill_block() -> (row: WorkoutExercise)
        ensures
            row@ == skill_block_row(),
    {
        proof {
            reveal_strlit("Skill Block");
        }
        let name = "Skill Block".to_owned();
        assert(name@ == skill_block_name());
        WorkoutExercise {
            group: 1,
            name,
            sets: String::new(),
            distance: String::new(),
            time: String::new(),
            reps: String::new(),
            goal: String::new(),
            video: String::new(),
        }
    }
}

} // verus!
