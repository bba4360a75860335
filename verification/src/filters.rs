//! The selection filter chain: the predicates that narrow a candidate pool.

use vstd::prelude::*;
use crate::catalog::{Exercise, ExerciseCategory, ExerciseLevel, ExerciseType, ExerciseView};
use crate::random::shuffle_vector;
use crate::sequences::{lemma_views_of_rearranged, views};
use crate::snooze::{snoozed_names, SnoozedExercise};

verus! {

/// Whether an exercise of level `actual` may be used in a workout asked for at
/// level `requested`. A beginner or intermediate workout takes only its own
/// level; an advanced workout also takes intermediate exercises.
pub open spec fn level_admits(requested: ExerciseLevel, actual: ExerciseLevel) -> bool {
    match requested {
        ExerciseLevel::Beginner => actual == ExerciseLevel::Beginner,
        ExerciseLevel::Intermediate => actual == ExerciseLevel::Intermediate,
        ExerciseLevel::Advanced => actual == ExerciseLevel::Intermediate || actual
            == ExerciseLevel::Advanced,
    }
}

/// Whether `category` is allowed in group `group` (counted from zero) of a
/// workout of level `level`, for a slot of type `t`.
pub open spec fn category_admits(
    group: u32,
    level: ExerciseLevel,
    t: ExerciseType,
    category: ExerciseCategory,
) -> bool {
    if group == 0 {
        if level == ExerciseLevel::Beginner {
            category == ExerciseCategory::Secondary
        } else {
            category == ExerciseCategory::Primary
        }
    } else if group == 1 {
        category == ExerciseCategory::Primary || category == ExerciseCategory::Secondary
    } else if group == 2 {
        if t == ExerciseType::Core {
            category == ExerciseCategory::Secondary
        } else {
            category == ExerciseCategory::Secondary || category == ExerciseCategory::Accessory
        }
    } else {
        if t == ExerciseType::Core {
            category == ExerciseCategory::Secondary
        } else {
            category == ExerciseCategory::Accessory
        }
    }
}

/// Whether `e` may fill the slot of type `t` in group `group` of a workout of
/// level `level`: the conjunction of the type, level and category filters.
pub open spec fn eligible(e: ExerciseView, group: u32, level: ExerciseLevel, t: ExerciseType) -> bool {
    &&& e.exercise_type == t
    &&& level_admits(level, e.exercise_level)
    &&& category_admits(group, level, t, e.exercise_category)
}

/// In the first group of a beginner workout only secondary exercises pass the
/// category filter, whatever the type of the slot.
pub proof fn lemma_beginner_opens_with_secondary(t: ExerciseType, category: ExerciseCategory)
    ensures
        category_admits(0, ExerciseLevel::Beginner, t, category) <==> category
            == ExerciseCategory::Secondary,
{
}

/// From the fourth group on, only secondary exercises pass the category
/// filter for a core slot, and only accessory exercises pass it for a slot of
/// any other type, whatever the level.
pub proof fn lemma_late_groups_take_one_category(
    group: u32,
    level: ExerciseLevel,
    t: ExerciseType,
    category: ExerciseCategory,
)
    requires
        group >= 3,
    ensures
        t == ExerciseType::Core ==> (category_admits(group, level, t, category) <==> category
            == ExerciseCategory::Secondary),
        t != ExerciseType::Core ==> (category_admits(group, level, t, category) <==> category
            == ExerciseCategory::Accessory),
{
}

/// A core slot never takes an accessory exercise, in any group and at any
/// level.
pub proof fn lemma_core_takes_no_accessory(group: u32, level: ExerciseLevel)
    ensures
        !category_admits(group, level, ExerciseType::Core, ExerciseCategory::Accessory),
{
}

/// The level filter admits the requested level itself and, for an advanced
/// request, the intermediate level besides; it never admits a beginner
/// exercise to a workout of another level.
pub proof fn lemma_level_policy(requested: ExerciseLevel, actual: ExerciseLevel)
    ensures
        level_admits(requested, actual) <==> (actual == requested && requested
            != ExerciseLevel::Advanced) || (requested == ExerciseLevel::Advanced && actual
            != ExerciseLevel::Beginner),
{
}

/// The type filter: an exact match on the exercise type.
pub fn filter_by_type(e: &Exercise, t: &ExerciseType) -> (keep: bool)
    ensures
        keep == (e@.exercise_type == *t),
{
    e.exercise_type == *t
}

/// The level filter.
pub fn filter_by_level(e: &Exercise, l: &ExerciseLevel) -> (keep: bool)
    ensures
        keep == level_admits(*l, e@.exercise_level),
{
    match l {
        ExerciseLevel::Beginner => e.exercise_level == ExerciseLevel::Beginner,
        ExerciseLevel::Intermediate => e.exercise_level == ExerciseLevel::Intermediate,
        ExerciseLevel::Advanced => e.exercise_level == ExerciseLevel::Intermediate
            || e.exercise_level == ExerciseLevel::Advanced,
    }
}

/// The category filter for group `g` (counted from zero).
pub fn filter_by_category(e: &Exercise, g: u32, l: &ExerciseLevel, t: &ExerciseType) -> (keep: bool)
    ensures
        keep == category_admits(g, *l, *t, e@.exercise_category),
{
    match g {
        0 => match l {
            ExerciseLevel::Beginner => e.exercise_category == ExerciseCategory::Secondary,
            _ => e.exercise_category == ExerciseCategory::Primary,
        },
        1 => e.exercise_category == ExerciseCategory::Primary || e.exercise_category
            == ExerciseCategory::Secondary,
        2 => match t {
            ExerciseType::Core => e.exercise_category == ExerciseCategory::Secondary,
            _ => e.exercise_category == ExerciseCategory::Secondary || e.exercise_category
                == ExerciseCategory::Accessory,
        },
        _ => match t {
            ExerciseType::Core => e.exercise_category == ExerciseCategory::Secondary,
            _ => e.exercise_category == ExerciseCategory::Accessory,
        },
    }
}

/// Whether `e` may enter the candidate pool: it is a bodyweight exercise
/// where only those are wanted, and its name is not among the snoozed ones.
pub open spec fn is_candidate(e: ExerciseView, bodyweight: bool, snoozed: Seq<Seq<char>>) -> bool {
    (bodyweight ==> e.bodyweight) && !snoozed.contains(e.name)
}

/// The exercises of `pool` that may enter the candidate pool, in order.
pub open spec fn candidates(
    pool: Seq<ExerciseView>,
    bodyweight: bool,
    snoozed: Seq<Seq<char>>,
) -> Seq<ExerciseView> {
    pool.filter(|e: ExerciseView| is_candidate(e, bodyweight, snoozed))
}

/// Whether `name` is the name of one of the snoozed entries.
pub fn is_snoozed(name: &String, snoozed: &[SnoozedExercise]) -> (found: bool)
    ensures
        found == snoozed_names(views(snoozed@)).contains(name@),
{
    let mut i: usize = 0;
    while i < snoozed.len()
        invariant
            i <= snoozed@.len(),
            forall|j: int| 0 <= j < i ==> snoozed_names(views(snoozed@))[j] != name@,
        decreases snoozed@.len() - i,
    {
        if snoozed[i].name == *name {
            assert(snoozed_names(views(snoozed@))[i as int] == name@);
            return true;
        }
        i += 1;
    }
    false
}

/// Keeps in `pool` the exercises that may enter the candidate pool, in their
/// order: with `bodyweight` set only bodyweight exercises, and none whose name
/// is snoozed.
pub fn retain_candidates(pool: &mut Vec<Exercise>, bodyweight: bool, snoozed: &[SnoozedExercise])
    ensures
        views(final(pool)@) == candidates(
            views(old(pool)@),
            bodyweight,
            snoozed_names(views(snoozed@)),
        ),
{
    let mut all: Vec<Exercise> = Vec::new();
    std::mem::swap(pool, &mut all);
    let ghost names = snoozed_names(views(snoozed@));
    assert(candidates(Seq::empty(), bodyweight, names) == Seq::<ExerciseView>::empty()) by {
        reveal(Seq::filter);
    }
    for e in it: all.into_iter()
        invariant
            it.seq() == all@,
            names == snoozed_names(views(snoozed@)),
            views(pool@) == candidates(views(all@.take(it.index() as int)), bodyweight, names),
    {
        proof {
            let k = it.index() as int;
            assert(views(all@.take(k + 1)) == views(all@.take(k)).push(e@));
            views(all@.take(k)).lemma_filter_push(
                e@,
                |x: ExerciseView| is_candidate(x, bodyweight, names),
            );
        }
        if (!bodyweight || e.bodyweight) && !is_snoozed(&e.name, snoozed) {
            pool.push(e);
        }
    }
    assert(all@.take(all@.len() as int) == all@);
}

/// Narrows `relevant` to the candidate pool and shuffles it: only bodyweight
/// exercises where `bodyweight` is set, none whose name is snoozed, in random
/// order.
pub fn filter_exercises(
    relevant: &mut Vec<Exercise>,
    bodyweight: bool,
    snoozed: &[SnoozedExercise],
)
    ensures
        views(final(relevant)@).to_multiset() == candidates(
            views(old(relevant)@),
            bodyweight,
            snoozed_names(views(snoozed@)),
        ).to_multiset(),
{
    retain_candidates(relevant, bodyweight, snoozed);
    let ghost retained = relevant@;
    shuffle_vector(relevant);
    proof {
        lemma_views_of_rearranged(relevant@, retained);
    }
}

} // verus!
