use wodgen::catalog::{
    Exercise, ExerciseCategory, ExerciseLevel, ExerciseProgramming, ExerciseType,
};
use wodgen::generator::{find_first_eligible, generate_workout, pick_slot, remove_named};
use wodgen::presentation::WorkoutExercise;
use wodgen::snooze::SnoozedExercise;

fn exercise(
    name: &str,
    exercise_type: ExerciseType,
    exercise_category: ExerciseCategory,
    exercise_level: ExerciseLevel,
) -> Exercise {
    Exercise {
        name: String::from(name),
        exercise_type,
        exercise_category,
        exercise_level,
        exercise_programming: ExerciseProgramming::Reps,
        bodyweight: true,
        goal: Some(String::from("Strength")),
        video: format!("{}.mp4", name),
    }
}

fn push(name: &str, category: ExerciseCategory) -> Exercise {
    exercise(name, ExerciseType::Push, category, ExerciseLevel::Intermediate)
}

fn pull(name: &str, category: ExerciseCategory) -> Exercise {
    exercise(name, ExerciseType::Pull, category, ExerciseLevel::Intermediate)
}

fn names(pool: &[Exercise]) -> Vec<&str> {
    pool.iter().map(|e| e.name.as_str()).collect()
}

fn row_names(rows: &[WorkoutExercise]) -> Vec<(u32, &str)> {
    rows.iter().map(|r| (r.group, r.name.as_str())).collect()
}

fn entry_names(entries: &[SnoozedExercise]) -> Vec<&str> {
    entries.iter().map(|s| s.name.as_str()).collect()
}

#[test]
fn find_first_eligible_takes_the_first_match() {
    let pool = vec![
        pull("chin_up", ExerciseCategory::Primary),
        push("fly", ExerciseCategory::Accessory),
        push("dip", ExerciseCategory::Primary),
        push("press", ExerciseCategory::Primary),
    ];
    let level = ExerciseLevel::Intermediate;
    assert_eq!(find_first_eligible(&pool, 0, &level, &ExerciseType::Push), Some(2));
    assert_eq!(find_first_eligible(&pool, 0, &level, &ExerciseType::Pull), Some(0));
    assert_eq!(find_first_eligible(&pool, 2, &level, &ExerciseType::Push), Some(1));
    assert_eq!(find_first_eligible(&pool, 2, &level, &ExerciseType::Pull), None);
    assert_eq!(find_first_eligible(&pool, 0, &level, &ExerciseType::Legs), None);
    assert_eq!(find_first_eligible(&pool, 0, &ExerciseLevel::Beginner, &ExerciseType::Push), None);
    assert_eq!(find_first_eligible(&pool, 0, &ExerciseLevel::Advanced, &ExerciseType::Push), Some(2));
    assert_eq!(find_first_eligible(&Vec::new(), 0, &level, &ExerciseType::Push), None);
}

#[test]
fn remove_named_takes_every_exercise_of_the_name() {
    let mut pool = vec![
        push("row", ExerciseCategory::Primary),
        push("dip", ExerciseCategory::Primary),
        pull("row", ExerciseCategory::Secondary),
        push("fly", ExerciseCategory::Accessory),
    ];
    remove_named(&mut pool, &String::from("row"));
    assert_eq!(names(&pool), vec!["dip", "fly"]);
    remove_named(&mut pool, &String::from("absent"));
    assert_eq!(names(&pool), vec!["dip", "fly"]);
    remove_named(&mut pool, &String::from("fly"));
    remove_named(&mut pool, &String::from("dip"));
    assert!(pool.is_empty());
    remove_named(&mut pool, &String::from("dip"));
    assert!(pool.is_empty());
}

#[test]
fn pick_slot_removes_the_pick_and_its_namesakes() {
    let mut pool = vec![
        pull("press", ExerciseCategory::Primary),
        push("fly", ExerciseCategory::Accessory),
        push("press", ExerciseCategory::Primary),
        push("dip", ExerciseCategory::Primary),
    ];
    let picked =
        pick_slot(&mut pool, 0, &ExerciseLevel::Intermediate, &ExerciseType::Push).unwrap();
    assert_eq!(picked.name, "press");
    assert_eq!(picked.exercise_type, ExerciseType::Push);
    assert_eq!(names(&pool), vec!["fly", "dip"]);
}

#[test]
fn pick_slot_leaves_the_pool_where_nothing_passes() {
    let mut pool =
        vec![push("fly", ExerciseCategory::Accessory), pull("row", ExerciseCategory::Primary)];
    let picked = pick_slot(&mut pool, 0, &ExerciseLevel::Intermediate, &ExerciseType::Push);
    assert!(picked.is_none());
    assert_eq!(names(&pool), vec!["fly", "row"]);
}

#[test]
fn generate_workout_fills_group_by_group() {
    let mut pool = vec![
        push("fly", ExerciseCategory::Accessory),
        push("press", ExerciseCategory::Primary),
        pull("face__pull", ExerciseCategory::Secondary),
        push("dip", ExerciseCategory::Primary),
        pull("chin_up", ExerciseCategory::Primary),
        push("push_up", ExerciseCategory::Secondary),
        pull("curl", ExerciseCategory::Accessory),
    ];
    let mut snoozed = vec![SnoozedExercise { name: String::from("squat"), timestamp: 17 }];
    let workout = generate_workout(
        &mut pool,
        &[ExerciseType::Push, ExerciseType::Pull],
        &ExerciseLevel::Intermediate,
        3,
        &mut snoozed,
        1_700_000_000,
    );
    assert_eq!(
        row_names(&workout),
        vec![
            (1, "Skill Block"),
            (2, "Press"),
            (2, "Chin Up"),
            (3, "Dip"),
            (3, "Face - Pull"),
            (4, "Fly"),
            (4, "Curl"),
        ]
    );
    assert_eq!(names(&pool), vec!["push_up"]);
    assert_eq!(
        entry_names(&snoozed),
        vec!["squat", "press", "chin_up", "dip", "face__pull", "fly", "curl"]
    );
    assert_eq!(snoozed[0].timestamp, 17);
    assert!(snoozed[1..].iter().all(|s| s.timestamp == 1_700_000_000));
    assert!(workout[1..].iter().all(|r| r.reps == "X" && r.goal == "Strength"));
    assert_eq!(workout[4].video, "face__pull.mp4");
}

#[test]
fn generate_workout_skips_empty_slots() {
    let mut pool = vec![
        push("press", ExerciseCategory::Primary),
        pull("curl", ExerciseCategory::Accessory),
    ];
    let mut snoozed = Vec::new();
    let workout = generate_workout(
        &mut pool,
        &[ExerciseType::Legs, ExerciseType::Push, ExerciseType::Pull],
        &ExerciseLevel::Intermediate,
        4,
        &mut snoozed,
        5,
    );
    assert_eq!(row_names(&workout), vec![(1, "Skill Block"), (2, "Press"), (4, "Curl")]);
    assert!(pool.is_empty());
    assert_eq!(entry_names(&snoozed), vec!["press", "curl"]);
}

#[test]
fn generate_workout_without_groups_or_types() {
    let mut pool = vec![push("press", ExerciseCategory::Primary)];
    let mut snoozed = Vec::new();
    let workout = generate_workout(
        &mut pool,
        &[ExerciseType::Push],
        &ExerciseLevel::Intermediate,
        0,
        &mut snoozed,
        5,
    );
    assert_eq!(row_names(&workout), vec![(1, "Skill Block")]);
    let workout =
        generate_workout(&mut pool, &[], &ExerciseLevel::Intermediate, 3, &mut snoozed, 5);
    assert_eq!(row_names(&workout), vec![(1, "Skill Block")]);
    assert_eq!(pool.len(), 1);
    assert!(snoozed.is_empty());
}

#[test]
fn generate_workout_never_repeats_a_name() {
    // The same name under two types, and a type asked for twice.
    let mut pool = vec![
        push("row", ExerciseCategory::Primary),
        pull("row", ExerciseCategory::Primary),
        push("dip", ExerciseCategory::Primary),
        pull("chin_up", ExerciseCategory::Secondary),
        push("press", ExerciseCategory::Secondary),
    ];
    let mut snoozed = Vec::new();
    let workout = generate_workout(
        &mut pool,
        &[ExerciseType::Push, ExerciseType::Pull, ExerciseType::Push],
        &ExerciseLevel::Intermediate,
        3,
        &mut snoozed,
        5,
    );
    assert_eq!(
        row_names(&workout),
        vec![(1, "Skill Block"), (2, "Row"), (2, "Dip"), (3, "Press"), (3, "Chin Up")]
    );
    let mut picked = entry_names(&snoozed);
    let count = picked.len();
    picked.sort();
    picked.dedup();
    assert_eq!(picked.len(), count);
    assert!(pool.is_empty());
}

#[test]
fn generate_workout_for_beginners_opens_with_secondary() {
    let mut pool = vec![
        exercise("a", ExerciseType::Core, ExerciseCategory::Primary, ExerciseLevel::Beginner),
        exercise("b", ExerciseType::Core, ExerciseCategory::Secondary, ExerciseLevel::Intermediate),
        exercise("c", ExerciseType::Core, ExerciseCategory::Secondary, ExerciseLevel::Beginner),
        exercise("d", ExerciseType::Core, ExerciseCategory::Accessory, ExerciseLevel::Beginner),
        exercise("e", ExerciseType::Core, ExerciseCategory::Secondary, ExerciseLevel::Beginner),
        exercise("f", ExerciseType::Core, ExerciseCategory::Secondary, ExerciseLevel::Beginner),
    ];
    let mut snoozed = Vec::new();
    let workout = generate_workout(
        &mut pool,
        &[ExerciseType::Core],
        &ExerciseLevel::Beginner,
        5,
        &mut snoozed,
        5,
    );
    // Core never takes an accessory exercise: "d" stays in the pool.
    assert_eq!(
        row_names(&workout),
        vec![(1, "Skill Block"), (2, "C"), (3, "A"), (4, "E"), (5, "F")]
    );
    assert_eq!(names(&pool), vec!["b", "d"]);
}

#[test]
fn generate_workout_at_the_largest_group_count() {
    let mut pool: Vec<Exercise> = Vec::new();
    let mut snoozed = Vec::new();
    let workout =
        generate_workout(&mut pool, &[], &ExerciseLevel::Advanced, 3, &mut snoozed, i64::MIN);
    assert_eq!(workout.len(), 1);
}
