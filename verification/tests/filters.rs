use wodgen::catalog::{
    Exercise, ExerciseCategory, ExerciseLevel, ExerciseProgramming, ExerciseType,
};
use wodgen::filters::{
    filter_by_category, filter_by_level, filter_by_type, filter_exercises, is_snoozed,
    retain_candidates,
};
use wodgen::snooze::SnoozedExercise;

fn create_test_exercises() -> Vec<Exercise> {
    vec![
        Exercise {
            name: String::from("Push Up"),
            exercise_type: ExerciseType::Push,
            exercise_category: ExerciseCategory::Primary,
            exercise_level: ExerciseLevel::Beginner,
            exercise_programming: ExerciseProgramming::Reps,
            bodyweight: true,
            goal: Some(String::from("Strength")),
            video: String::from("push_up.mp4"),
        },
        Exercise {
            name: String::from("Pull Up"),
            exercise_type: ExerciseType::Pull,
            exercise_category: ExerciseCategory::Primary,
            exercise_level: ExerciseLevel::Intermediate,
            exercise_programming: ExerciseProgramming::Reps,
            bodyweight: true,
            goal: Some(String::from("Strength")),
            video: String::from("pull_up.mp4"),
        },
        Exercise {
            name: String::from("Squat"),
            exercise_type: ExerciseType::Legs,
            exercise_category: ExerciseCategory::Primary,
            exercise_level: ExerciseLevel::Advanced,
            exercise_programming: ExerciseProgramming::Reps,
            bodyweight: false,
            goal: Some(String::from("Strength")),
            video: String::from("squat.mp4"),
        },
        Exercise {
            name: String::from("Plank"),
            exercise_type: ExerciseType::Core,
            exercise_category: ExerciseCategory::Secondary,
            exercise_level: ExerciseLevel::Beginner,
            exercise_programming: ExerciseProgramming::Time,
            bodyweight: true,
            goal: Some(String::from("Endurance")),
            video: String::from("plank.mp4"),
        },
    ]
}

fn exercise(
    name: &str,
    exercise_type: ExerciseType,
    exercise_category: ExerciseCategory,
    exercise_level: ExerciseLevel,
) -> Exercise {
    Exercise {
        name: String::from(name),
        exercise_type,
        exercise_category,
        exercise_level,
        exercise_programming: ExerciseProgramming::Reps,
        bodyweight: true,
        goal: None,
        video: String::new(),
    }
}

fn snoozed(name: &str) -> SnoozedExercise {
    SnoozedExercise { name: String::from(name), timestamp: 0 }
}

const ALL_TYPES: [ExerciseType; 5] = [
    ExerciseType::Cooldown,
    ExerciseType::Core,
    ExerciseType::Legs,
    ExerciseType::Pull,
    ExerciseType::Push,
];

const ALL_CATEGORIES: [ExerciseCategory; 3] =
    [ExerciseCategory::Primary, ExerciseCategory::Secondary, ExerciseCategory::Accessory];

const ALL_LEVELS: [ExerciseLevel; 3] =
    [ExerciseLevel::Beginner, ExerciseLevel::Intermediate, ExerciseLevel::Advanced];

#[test]
fn test_filter_by_type() {
    let exercises = create_test_exercises();
    let push_exercises: Vec<&Exercise> = exercises
        .iter()
        .filter(|e| filter_by_type(e, &ExerciseType::Push))
        .collect();
    assert_eq!(push_exercises.len(), 1);
    assert_eq!(push_exercises[0].name, "Push Up");

    let pull_exercises: Vec<&Exercise> = exercises
        .iter()
        .filter(|e| filter_by_type(e, &ExerciseType::Pull))
        .collect();
    assert_eq!(pull_exercises.len(), 1);
    assert_eq!(pull_exercises[0].name, "Pull Up");
}

#[test]
fn test_filter_by_level() {
    let exercises = create_test_exercises();
    let beginner_exercises: Vec<&Exercise> = exercises
        .iter()
        .filter(|e| filter_by_level(e, &ExerciseLevel::Beginner))
        .collect();
    assert_eq!(beginner_exercises.len(), 2);
    assert!(beginner_exercises.iter().any(|e| e.name == "Push Up"));
    assert!(beginner_exercises.iter().any(|e| e.name == "Plank"));

    // An intermediate workout takes intermediate exercises only.
    let intermediate_exercises: Vec<&Exercise> = exercises
        .iter()
        .filter(|e| filter_by_level(e, &ExerciseLevel::Intermediate))
        .collect();
    assert_eq!(intermediate_exercises.len(), 1);
    assert!(!intermediate_exercises.iter().any(|e| e.name == "Push Up"));
    assert!(intermediate_exercises.iter().any(|e| e.name == "Pull Up"));
    assert!(!intermediate_exercises.iter().any(|e| e.name == "Plank"));

    // An advanced workout takes intermediate and advanced exercises.
    let advanced_exercises: Vec<&Exercise> = exercises
        .iter()
        .filter(|e| filter_by_level(e, &ExerciseLevel::Advanced))
        .collect();
    assert_eq!(advanced_exercises.len(), 2);
    assert!(advanced_exercises.iter().any(|e| e.name == "Pull Up"));
    assert!(advanced_exercises.iter().any(|e| e.name == "Squat"));
}

#[test]
fn test_filter_by_category() {
    let exercises = create_test_exercises();
    let primary_exercises: Vec<&Exercise> = exercises
        .iter()
        .filter(|e| filter_by_category(e, 0, &ExerciseLevel::Intermediate, &ExerciseType::Push))
        .collect();
    assert_eq!(primary_exercises.len(), 3);
    assert_eq!(primary_exercises[0].name, "Push Up");

    let secondary_exercises: Vec<&Exercise> = exercises
        .iter()
        .filter(|e| filter_by_category(e, 2, &ExerciseLevel::Intermediate, &ExerciseType::Core))
        .collect();
    assert_eq!(secondary_exercises.len(), 1);
    assert_eq!(secondary_exercises[0].name, "Plank");

    let accessory_exercises: Vec<&Exercise> = exercises
        .iter()
        .filter(|e| filter_by_category(e, 3, &ExerciseLevel::Advanced, &ExerciseType::Legs))
        .collect();
    assert_eq!(accessory_exercises.len(), 0);
}

#[test]
fn level_filter_table() {
    let expected = [
        (ExerciseLevel::Beginner, [true, false, false]),
        (ExerciseLevel::Intermediate, [false, true, false]),
        (ExerciseLevel::Advanced, [false, true, true]),
    ];
    for (requested, row) in expected {
        for (actual, want) in ALL_LEVELS.iter().zip(row) {
            let e = exercise("x", ExerciseType::Push, ExerciseCategory::Primary, *actual);
            assert_eq!(filter_by_level(&e, &requested), want);
        }
    }
}

#[test]
fn beginner_first_group_takes_secondary_only() {
    for t in ALL_TYPES {
        for c in ALL_CATEGORIES {
            let e = exercise("x", t, c, ExerciseLevel::Beginner);
            assert_eq!(
                filter_by_category(&e, 0, &ExerciseLevel::Beginner, &t),
                c == ExerciseCategory::Secondary
            );
        }
    }
}

#[test]
fn other_levels_first_group_takes_primary_only() {
    for l in [ExerciseLevel::Intermediate, ExerciseLevel::Advanced] {
        for t in ALL_TYPES {
            for c in ALL_CATEGORIES {
                let e = exercise("x", t, c, l);
                assert_eq!(filter_by_category(&e, 0, &l, &t), c == ExerciseCategory::Primary);
            }
        }
    }
}

#[test]
fn second_group_takes_primary_or_secondary() {
    for l in ALL_LEVELS {
        for t in ALL_TYPES {
            for c in ALL_CATEGORIES {
                let e = exercise("x", t, c, l);
                assert_eq!(filter_by_category(&e, 1, &l, &t), c != ExerciseCategory::Accessory);
            }
        }
    }
}

#[test]
fn third_group_categories() {
    for l in ALL_LEVELS {
        for t in ALL_TYPES {
            for c in ALL_CATEGORIES {
                let e = exercise("x", t, c, l);
                let want = if t == ExerciseType::Core {
                    c == ExerciseCategory::Secondary
                } else {
                    c != ExerciseCategory::Primary
                };
                assert_eq!(filter_by_category(&e, 2, &l, &t), want);
            }
        }
    }
}

#[test]
fn late_groups_take_one_category() {
    for g in [3u32, 4, 10, u32::MAX] {
        for l in ALL_LEVELS {
            for t in ALL_TYPES {
                for c in ALL_CATEGORIES {
                    let e = exercise("x", t, c, l);
                    let want = if t == ExerciseType::Core {
                        c == ExerciseCategory::Secondary
                    } else {
                        c == ExerciseCategory::Accessory
                    };
                    assert_eq!(filter_by_category(&e, g, &l, &t), want);
                }
            }
        }
    }
}

#[test]
fn type_filter_is_exact() {
    for t in ALL_TYPES {
        for u in ALL_TYPES {
            let e = exercise("x", t, ExerciseCategory::Primary, ExerciseLevel::Beginner);
            assert_eq!(filter_by_type(&e, &u), t == u);
        }
    }
}

#[test]
fn is_snoozed_finds_names() {
    let list = vec![snoozed("Plank"), snoozed("Squat")];
    assert!(is_snoozed(&String::from("Plank"), &list));
    assert!(is_snoozed(&String::from("Squat"), &list));
    assert!(!is_snoozed(&String::from("plank"), &list));
    assert!(!is_snoozed(&String::from("Plank"), &[]));
}

#[test]
fn retain_candidates_keeps_order() {
    let mut pool = create_test_exercises();
    retain_candidates(&mut pool, true, &[snoozed("Plank")]);
    let names: Vec<&str> = pool.iter().map(|e| e.name.as_str()).collect();
    assert_eq!(names, vec!["Push Up", "Pull Up"]);

    let mut pool = create_test_exercises();
    retain_candidates(&mut pool, false, &[snoozed("Push Up"), snoozed("Pull Up")]);
    let names: Vec<&str> = pool.iter().map(|e| e.name.as_str()).collect();
    assert_eq!(names, vec!["Squat", "Plank"]);

    let mut pool = create_test_exercises();
    retain_candidates(&mut pool, false, &[]);
    assert_eq!(pool.len(), 4);
}

#[test]
fn retain_candidates_drops_every_exercise_of_a_snoozed_name() {
    let mut pool = vec![
        exercise("row", ExerciseType::Pull, ExerciseCategory::Primary, ExerciseLevel::Beginner),
        exercise("dip", ExerciseType::Push, ExerciseCategory::Primary, ExerciseLevel::Beginner),
        exercise("row", ExerciseType::Core, ExerciseCategory::Secondary, ExerciseLevel::Advanced),
    ];
    retain_candidates(&mut pool, false, &[snoozed("row")]);
    assert_eq!(pool.len(), 1);
    assert_eq!(pool[0].name, "dip");
}

#[test]
fn filter_exercises_shuffles_the_candidates() {
    let names: Vec<String> = (0..60).map(|i| format!("exercise_{}", i)).collect();
    let mut pool: Vec<Exercise> = names
        .iter()
        .map(|n| exercise(n, ExerciseType::Push, ExerciseCategory::Primary, ExerciseLevel::Beginner))
        .collect();
    pool[7].bodyweight = false;
    filter_exercises(&mut pool, true, &[snoozed("exercise_3")]);
    let got: Vec<String> = pool.iter().map(|e| e.name.clone()).collect();
    let want: Vec<String> = names
        .iter()
        .filter(|n| n.as_str() != "exercise_3" && n.as_str() != "exercise_7")
        .cloned()
        .collect();
    assert_eq!(got.len(), 58);
    // With 58 items the shuffle leaves the order unchanged once in 58! runs.
    assert_ne!(got, want);
    let mut sorted_got = got.clone();
    sorted_got.sort();
    let mut sorted_want = want.clone();
    sorted_want.sort();
    assert_eq!(sorted_got, sorted_want);
}
