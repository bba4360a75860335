//! The exercise catalogue: an exercise and the axes it is classified by.

use vstd::prelude::*;

verus! {

/// The body region or purpose an exercise trains.
#[derive(Debug, Clone, Copy, PartialEq, Eq, Hash, Structural)]
pub enum ExerciseType {
    Cooldown,
    Core,
    Legs,
    Pull,
    Push,
}

/// The name of the file of the exercise library that holds the exercises of
/// type `t`.
pub open spec fn file_name_of(t: ExerciseType) -> Seq<char> {
    match t {
        ExerciseType::Cooldown => "cooldown.csv"@,
        ExerciseType::Core => "core.csv"@,
        ExerciseType::Legs => "legs.csv"@,
        ExerciseType::Pull => "pull.csv"@,
        ExerciseType::Push => "push.csv"@,
    }
}

impl ExerciseType {
    /// The name of the file of the exercise library that holds the exercises
    /// of this type.
    pub fn file_name(&self) -> (name: &'static str)
        ensures
            name@ == file_name_of(*self),
    {
        match self {
            ExerciseType::Cooldown => "cooldown.csv",
            ExerciseType::Core => "core.csv",
            ExerciseType::Legs => "legs.csv",
            ExerciseType::Pull => "pull.csv",
            ExerciseType::Push => "push.csv",
        }
    }
}

/// The priority tier of an exercise within a workout.
#[derive(Debug, Clone, Copy, PartialEq, Eq, Hash, Structural)]
pub enum ExerciseCategory {
    Primary,
    Secondary,
    Accessory,
}

/// The difficulty of an exercise, or the difficulty a workout is asked for.
#[derive(Debug, Clone, Copy, PartialEq, Eq, Hash, Structural)]
pub enum ExerciseLevel {
    Beginner,
    Intermediate,
    Advanced,
}

/// How an exercise is tracked: by distance covered, repetitions or time.
#[derive(Debug, Clone, Copy, PartialEq, Eq, Hash, Structural)]
pub enum ExerciseProgramming {
    Distance,
    Reps,
    Time,
}

/// One record of the exercise catalogue.
#[derive(Debug)]
pub struct Exercise {
    pub name: String,
    pub exercise_type: ExerciseType,
    pub exercise_category: ExerciseCategory,
    pub exercise_level: ExerciseLevel,
    pub exercise_programming: ExerciseProgramming,
    pub bodyweight: bool,
    pub goal: Option<String>,
    pub video: String,
}

/// The mathematical content of an [`Exercise`]: its texts as character
/// sequences, its classification unchanged.
pub struct ExerciseView {
    pub name: Seq<char>,
    pub exercise_type: ExerciseType,
    pub exercise_category: ExerciseCategory,
    pub exercise_level: ExerciseLevel,
    pub exercise_programming: ExerciseProgramming,
    pub bodyweight: bool,
    pub goal: Option<Seq<char>>,
    pub video: Seq<char>,
}

impl View for Exercise {
    type V = ExerciseView;

    open spec fn view(&self) -> ExerciseView {
        ExerciseView {
            name: self.name@,
            exercise_type: self.exercise_type,
            exercise_category: self.exercise_category,
            exercise_level: self.exercise_level,
            exercise_programming: self.exercise_programming,
            bodyweight: self.bodyweight,
            goal: match self.goal {
                Some(g) => Some(g@),
                None => None,
            },
            video: self.video@,
        }
    }
}

impl Clone for Exercise {
    fn clone(&self) -> (copy: Self)
        ensures
            copy@ == self@,
    {
        Exercise {
            name: self.name.clone(),
            exercise_type: self.exercise_type,
            exercise_category: self.exercise_category,
            exercise_level: self.exercise_level,
            exercise_programming: self.exercise_programming,
            bodyweight: self.bodyweight,
            goal: match &self.goal {
                Some(g) => Some(g.clone()),
                None => None,
            },
            video: self.video.clone(),
        }
    }
}

} // verus!
