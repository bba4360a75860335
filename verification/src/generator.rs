//! The workout generator: group by group and type by type it picks the first
//! eligible exercise of the candidate pool, takes every exercise of that name
//! out of the pool and snoozes it.

use vstd::prelude::*;
use crate::catalog::{Exercise, ExerciseLevel, ExerciseType, ExerciseView};
use crate::filters::{eligible, filter_by_category, filter_by_level, filter_by_type};
use crate::presentation::{row_of, skill_block_row, WorkoutExercise, WorkoutExerciseView};
use crate::sequences::{lemma_filter_after_remove, lemma_filter_membership, views};
use crate::snooze::{entry, record, SnoozedExercise, SnoozedExerciseView};

verus! {

/// One exercise picked for a workout, and the group (counted from zero) it
/// was picked for.
pub struct Pick {
    pub group: u32,
    pub exercise: ExerciseView,
}

/// The state of a selection: the candidates still in the pool, and the picks
/// made so far, in the order they were made.
pub struct Selection {
    pub pool: Seq<ExerciseView>,
    pub picks: Seq<Pick>,
}

/// Whether `i` is the position of the first exercise of `pool` that is
/// eligible for the slot of type `t` in group `group`.
pub open spec fn is_first_eligible(
    pool: Seq<ExerciseView>,
    i: int,
    group: u32,
    level: ExerciseLevel,
    t: ExerciseType,
) -> bool {
    &&& 0 <= i < pool.len()
    &&& eligible(pool[i], group, level, t)
    &&& forall|j: int| 0 <= j < i ==> !eligible(#[trigger] pool[j], group, level, t)
}

/// The position of the first exercise of `pool` that is eligible for the
/// slot, if any is.
pub open spec fn first_eligible(
    pool: Seq<ExerciseView>,
    group: u32,
    level: ExerciseLevel,
    t: ExerciseType,
) -> Option<int> {
    if exists|i: int| is_first_eligible(pool, i, group, level, t) {
        Some(choose|i: int| is_first_eligible(pool, i, group, level, t))
    } else {
        None
    }
}

/// `pool` without the exercises called `name`, in order.
pub open spec fn without_name(pool: Seq<ExerciseView>, name: Seq<char>) -> Seq<ExerciseView> {
    pool.filter(|e: ExerciseView| e.name != name)
}

/// The selection after the slot of type `t` in group `group` was filled from
/// `s`: the first eligible exercise of the pool is picked and every exercise
/// of its name leaves the pool. Where none is eligible the slot stays empty
/// and nothing changes.
pub open spec fn fill_slot(s: Selection, group: u32, level: ExerciseLevel, t: ExerciseType) -> Selection {
    match first_eligible(s.pool, group, level, t) {
        Some(i) => Selection {
            pool: without_name(s.pool, s.pool[i].name),
            picks: s.picks.push(Pick { group, exercise: s.pool[i] }),
        },
        None => s,
    }
}

/// The selection after the slots of group `group` were filled from `s`, one
/// for each of `types`, in their order.
pub open spec fn fill_group(
    s: Selection,
    group: u32,
    level: ExerciseLevel,
    types: Seq<ExerciseType>,
) -> Selection
    decreases types.len(),
{
    if types.len() == 0 {
        s
    } else {
        fill_slot(fill_group(s, group, level, types.drop_last()), group, level, types.last())
    }
}

/// The selection after the first `groups` groups were filled from `s`.
pub open spec fn fill_groups(
    s: Selection,
    groups: nat,
    level: ExerciseLevel,
    types: Seq<ExerciseType>,
) -> Selection
    decreases groups,
{
    if groups == 0 {
        s
    } else {
        fill_group(
            fill_groups(s, (groups - 1) as nat, level, types),
            (groups - 1) as u32,
            level,
            types,
        )
    }
}

/// The selection that a workout of `groups` groups makes from `pool`.
pub open spec fn selection(
    pool: Seq<ExerciseView>,
    types: Seq<ExerciseType>,
    level: ExerciseLevel,
    groups: nat,
) -> Selection {
    fill_groups(Selection { pool, picks: Seq::empty() }, groups, level, types)
}

/// The row number of group `group` (counted from zero): the warm-up
/// placeholder holds row group 1, so the first group is numbered 2.
pub open spec fn row_group(group: u32) -> u32 {
    (group + 2) as u32
}

/// The workout rows of the picks, in order.
pub open spec fn pick_rows(picks: Seq<Pick>) -> Seq<WorkoutExerciseView> {
    picks.map_values(|p: Pick| row_of(row_group(p.group), p.exercise))
}

/// The snooze entries of the picks, all recorded at `now`, in order.
pub open spec fn pick_entries(picks: Seq<Pick>, now: int) -> Seq<SnoozedExerciseView> {
    picks.map_values(|p: Pick| entry(p.exercise.name, now))
}

/// Whether one of `picks` is an exercise called `name`.
pub open spec fn is_picked(picks: Seq<Pick>, name: Seq<char>) -> bool {
    exists|k: int| 0 <= k < picks.len() && (#[trigger] picks[k]).exercise.name == name
}

/// Whether the picks are exercises of pairwise different names.
pub open spec fn distinct_names(picks: Seq<Pick>) -> bool {
    forall|i: int, j: int|
        0 <= i < j < picks.len() ==> (#[trigger] picks[i]).exercise.name != (
        #[trigger] picks[j]).exercise.name
}

/// Whether `pick` was made by the rules for a workout of `groups` groups: for
/// one of its groups, and passing the filter chain for one of the requested
/// types.
pub open spec fn is_regular(
    pick: Pick,
    types: Seq<ExerciseType>,
    level: ExerciseLevel,
    groups: nat,
) -> bool {
    &&& pick.group < groups
    &&& exists|k: int|
        0 <= k < types.len() && eligible(pick.exercise, pick.group, level, #[trigger] types[k])
}

/// Whether `s` is a state that a selection from the pool `origin` can be in:
/// every pick is a regular pick of an exercise of `origin`, no two picks share
/// a name, and the pool holds exactly the exercises of `origin` whose name was
/// not picked.
pub open spec fn selected_from(
    origin: Seq<ExerciseView>,
    s: Selection,
    types: Seq<ExerciseType>,
    level: ExerciseLevel,
    groups: nat,
) -> bool {
    &&& distinct_names(s.picks)
    &&& forall|k: int|
        0 <= k < s.picks.len() ==> origin.contains((#[trigger] s.picks[k]).exercise) && is_regular(
            s.picks[k],
            types,
            level,
            groups,
        )
    &&& forall|e: ExerciseView| #[trigger]
        s.pool.contains(e) <==> origin.contains(e) && !is_picked(s.picks, e.name)
}

/// Filling one slot leads from a state that a selection can be in to another
/// such state.
proof fn lemma_fill_slot_keeps_state(
    origin: Seq<ExerciseView>,
    s: Selection,
    types: Seq<ExerciseType>,
    level: ExerciseLevel,
    groups: nat,
    group: u32,
    k: int,
)
    requires
        selected_from(origin, s, types, level, groups),
        group < groups,
        0 <= k < types.len(),
    ensures
        selected_from(origin, fill_slot(s, group, level, types[k]), types, level, groups),
{
    let t = types[k];
    let next = fill_slot(s, group, level, t);
    match first_eligible(s.pool, group, level, t) {
        Some(i) => {
            let e = s.pool[i];
            assert(s.pool.contains(e));
            assert forall|x: ExerciseView| #[trigger]
                next.pool.contains(x) <==> origin.contains(x) && !is_picked(
                    next.picks,
                    x.name,
                ) by {
                lemma_filter_membership(s.pool, |y: ExerciseView| y.name != e.name, x);
                if is_picked(s.picks, x.name) {
                    let j = choose|j: int|
                        0 <= j < s.picks.len() && (#[trigger] s.picks[j]).exercise.name == x.name;
                    assert(next.picks[j].exercise.name == x.name);
                }
                if x.name == e.name {
                    assert(next.picks[s.picks.len() as int].exercise.name == x.name);
                }
            }
        },
        None => {},
    }
}

/// So does filling the first `done` slots of a group.
proof fn lemma_fill_group_keeps_state(
    origin: Seq<ExerciseView>,
    s: Selection,
    types: Seq<ExerciseType>,
    level: ExerciseLevel,
    groups: nat,
    group: u32,
    done: int,
)
    requires
        selected_from(origin, s, types, level, groups),
        group < groups,
        0 <= done <= types.len(),
    ensures
        selected_from(origin, fill_group(s, group, level, types.take(done)), types, level, groups),
    decreases done,
{
    if done > 0 {
        lemma_fill_group_keeps_state(origin, s, types, level, groups, group, done - 1);
        assert(types.take(done).drop_last() == types.take(done - 1));
        lemma_fill_slot_keeps_state(
            origin,
            fill_group(s, group, level, types.take(done - 1)),
            types,
            level,
            groups,
            group,
            done - 1,
        );
    }
}

/// And so does filling the first `done` groups, from the start.
proof fn lemma_fill_groups_keeps_state(
    origin: Seq<ExerciseView>,
    types: Seq<ExerciseType>,
    level: ExerciseLevel,
    groups: nat,
    done: nat,
)
    requires
        done <= groups <= u32::MAX,
    ensures
        selected_from(
            origin,
            fill_groups(Selection { pool: origin, picks: Seq::empty() }, done, level, types),
            types,
            level,
            groups,
        ),
    decreases done,
{
    let start = Selection { pool: origin, picks: Seq::empty() };
    if done > 0 {
        lemma_fill_groups_keeps_state(origin, types, level, groups, (done - 1) as nat);
        assert(types.take(types.len() as int) == types);
        lemma_fill_group_keeps_state(
            origin,
            fill_groups(start, (done - 1) as nat, level, types),
            types,
            level,
            groups,
            (done - 1) as u32,
            types.len() as int,
        );
    }
}

/// What holds of every selection. No two picks share a name. Every pick is an
/// exercise of the pool the selection started from, made for one of the
/// groups and passing the type, level and category filters for one of the
/// requested types. The pool that is left holds exactly the exercises whose
/// name was not picked.
pub proof fn lemma_selection_is_sound(
    pool: Seq<ExerciseView>,
    types: Seq<ExerciseType>,
    level: ExerciseLevel,
    groups: nat,
)
    requires
        groups <= u32::MAX,
    ensures
        selected_from(pool, selection(pool, types, level, groups), types, level, groups),
{
    lemma_fill_groups_keeps_state(pool, types, level, groups, groups);
}

/// Filling a group makes at most one pick for each requested type.
proof fn lemma_fill_group_size(
    s: Selection,
    group: u32,
    level: ExerciseLevel,
    types: Seq<ExerciseType>,
)
    ensures
        s.picks.len() <= fill_group(s, group, level, types).picks.len() <= s.picks.len()
            + types.len(),
    decreases types.len(),
{
    if types.len() > 0 {
        lemma_fill_group_size(s, group, level, types.drop_last());
    }
}

/// A selection makes at most one pick for each group and requested type.
pub proof fn lemma_selection_size(
    pool: Seq<ExerciseView>,
    types: Seq<ExerciseType>,
    level: ExerciseLevel,
    groups: nat,
)
    ensures
        selection(pool, types, level, groups).picks.len() <= groups * types.len(),
    decreases groups,
{
    let start = Selection { pool, picks: Seq::empty() };
    if groups > 0 {
        lemma_selection_size(pool, types, level, (groups - 1) as nat);
        lemma_fill_group_size(
            fill_groups(start, (groups - 1) as nat, level, types),
            (groups - 1) as u32,
            level,
            types,
        );
        assert(groups * types.len() == (groups - 1) * types.len() + types.len())
            by (nonlinear_arith);
    } else {
        assert(groups * types.len() == 0) by (nonlinear_arith)
            requires
                groups == 0,
        ;
    }
}

/// The position of the first exercise of `pool` that passes the type, level
/// and category filters of the slot.
pub fn find_first_eligible(
    pool: &Vec<Exercise>,
    group: u32,
    level: &ExerciseLevel,
    t: &ExerciseType,
) -> (found: Option<usize>)
    ensures
        match found {
            Some(i) => first_eligible(views(pool@), group, *level, *t) == Some(i as int),
            None => first_eligible(views(pool@), group, *level, *t) is None,
        },
{
    let mut i: usize = 0;
    while i < pool.len()
        invariant
            i <= pool@.len(),
            forall|j: int| 0 <= j < i ==> !eligible(#[trigger] views(pool@)[j], group, *level, *t),
        decreases pool@.len() - i,
    {
        let e = &pool[i];
        if filter_by_type(e, t) && filter_by_level(e, level) && filter_by_category(
            e,
            group,
            level,
            t,
        ) {
            assert(is_first_eligible(views(pool@), i as int, group, *level, *t));
            return Some(i);
        }
        i += 1;
    }
    None
}

/// Takes every exercise called `name` out of `pool`; the others keep their
/// order.
pub fn remove_named(pool: &mut Vec<Exercise>, name: &String)
    ensures
        views(final(pool)@) == without_name(views(old(pool)@), name@),
{
    let mut all: Vec<Exercise> = Vec::new();
    std::mem::swap(pool, &mut all);
    assert(without_name(Seq::empty(), name@) == Seq::<ExerciseView>::empty()) by {
        reveal(Seq::filter);
    }
    for e in it: all.into_iter()
        invariant
            it.seq() == all@,
            views(pool@) == without_name(views(all@.take(it.index() as int)), name@),
    {
        proof {
            let k = it.index() as int;
            assert(views(all@.take(k + 1)) == views(all@.take(k)).push(e@));
            views(all@.take(k)).lemma_filter_push(e@, |x: ExerciseView| x.name != name@);
        }
        if e.name != *name {
            pool.push(e);
        }
    }
    assert(all@.take(all@.len() as int) == all@);
}

/// Picks the exercise for the slot of type `t` in group `group`: the first
/// one of `pool` that passes the filter chain. It and every other exercise of
/// its name leave the pool. Where no exercise passes, the pool is left as it
/// is.
pub fn pick_slot(
    pool: &mut Vec<Exercise>,
    group: u32,
    level: &ExerciseLevel,
    t: &ExerciseType,
) -> (picked: Option<Exercise>)
    ensures
        match first_eligible(views(old(pool)@), group, *level, *t) {
            Some(i) => picked matches Some(e) && e@ == views(old(pool)@)[i] && views(final(pool)@)
                == without_name(views(old(pool)@), e@.name),
            None => picked is None && final(pool)@ == old(pool)@,
        },
{
    match find_first_eligible(pool, group, level, t) {
        Some(i) => {
            let e = pool.remove(i);
            proof {
                assert(views(pool@) == views(old(pool)@).remove(i as int));
                lemma_filter_after_remove(
                    views(old(pool)@),
                    |x: ExerciseView| x.name != e@.name,
                    i as int,
                );
            }
            remove_named(pool, &e.name);
            Some(e)
        },
        None => None,
    }
}

/// Generates the strength part of a workout from the candidate pool
/// `relevant`, which the caller has filtered and put in the order that picks
/// are to prefer.
///
/// The workout opens with the warm-up placeholder. Then, for each of
/// `num_groups` groups and each of `types` in their order, the first exercise
/// of the pool that passes the filter chain is picked; a slot for which none
/// passes is skipped. Each pick leaves the pool together with every exercise
/// of its name, is recorded in `snoozed` at the instant `now`, and gets a row
/// in the group numbered two above its zero-based index.
///
/// So no two rows after the placeholder stand for exercises of the same
/// name, every pick is an exercise of the pool that passed the filter chain
/// for its slot, and the pool is left with the exercises whose name was not
/// picked.
pub fn generate_workout(
    relevant: &mut Vec<Exercise>,
    types: &[ExerciseType],
    level: &ExerciseLevel,
    num_groups: u32,
    snoozed: &mut Vec<SnoozedExercise>,
    now: i64,
) -> (workout: Vec<WorkoutExercise>)
    requires
        num_groups < u32::MAX,
    ensures
        ({
            let made = selection(views(old(relevant)@), types@, *level, num_groups as nat);
            &&& views(final(relevant)@) == made.pool
            &&& views(workout@) == seq![skill_block_row()] + pick_rows(made.picks)
            &&& views(final(snoozed)@) == views(old(snoozed)@) + pick_entries(
                made.picks,
                now as int,
            )
            &&& selected_from(views(old(relevant)@), made, types@, *level, num_groups as nat)
        }),
{
    let ghost start = Selection { pool: views(relevant@), picks: Seq::empty() };
    proof {
        lemma_selection_is_sound(views(relevant@), types@, *level, num_groups as nat);
    }
    let mut workout: Vec<WorkoutExercise> = Vec::new();
    workout.push(WorkoutExercise::skill_block());
    let mut group: u32 = 0;
    while group < num_groups
        invariant
            group <= num_groups < u32::MAX,
            start == (Selection { pool: views(old(relevant)@), picks: Seq::empty() }),
            ({
                let made = fill_groups(start, group as nat, *level, types@);
                &&& views(relevant@) == made.pool
                &&& views(workout@) == seq![skill_block_row()] + pick_rows(made.picks)
                &&& views(snoozed@) == views(old(snoozed)@) + pick_entries(made.picks, now as int)
            }),
        decreases num_groups - group,
    {
        let ghost before = fill_groups(start, group as nat, *level, types@);
        let mut k: usize = 0;
        while k < types.len()
            invariant
                k <= types@.len(),
                group < num_groups < u32::MAX,
                ({
                    let made = fill_group(before, group, *level, types@.take(k as int));
                    &&& views(relevant@) == made.pool
                    &&& views(workout@) == seq![skill_block_row()] + pick_rows(made.picks)
                    &&& views(snoozed@) == views(old(snoozed)@) + pick_entries(
                        made.picks,
                        now as int,
                    )
                }),
            decreases types@.len() - k,
        {
            let ghost rows = views(workout@);
            let ghost entries = views(snoozed@);
            assert(types@.take(k + 1).drop_last() == types@.take(k as int));
            match pick_slot(relevant, group, level, &types[k]) {
                Some(e) => {
                    snoozed.push(record(e.name.as_str(), now));
                    workout.push(WorkoutExercise::from_exercise(group + 2, &e));
                    proof {
                        assert(views(workout@) == rows.push(row_of(row_group(group), e@)));
                        assert(views(snoozed@) == entries.push(entry(e@.name, now as int)));
                    }
                },
                None => {},
            }
            k += 1;
        }
        assert(types@.take(types@.len() as int) == types@);
        group += 1;
    }
    workout
}

} // verus!
