//! A whole run: from the loaded catalogue and snooze list to the workout and
//! the snooze list to save.

use vstd::prelude::*;
use crate::catalog::{Exercise, ExerciseLevel, ExerciseType, ExerciseView};
use crate::cooldown::{add_cooldown_exercise, cooldown_taken, WorkoutError};
use crate::filters::{candidates, filter_exercises, is_candidate, retain_candidates};
use crate::generator::{
    distinct_names, generate_workout, is_picked, is_regular, lemma_selection_is_sound, lemma_selection_size, pick_entries, pick_rows, row_group, selection,
    Pick, Selection,
};
use crate::presentation::{row_of, skill_block_row, WorkoutExercise, WorkoutExerciseView};
use crate::sequences::{lemma_filter_membership, views};
use crate::snooze::{
    active_entries, current_timestamp, entry, lemma_active_entries_are_kept, load_active,
    snoozed_names, SnoozedExercise, SnoozedExerciseView, SECONDS_PER_DAY, SNOOZE_PERIOD,
};

verus! {

/// What a run hands back: the rows of the workout, and the snooze list to
/// save in place of the one that was loaded.
#[derive(Debug)]
pub struct Plan {
    pub workout: Vec<WorkoutExercise>,
    pub snoozed: Vec<SnoozedExercise>,
}

/// The mathematical content of a [`Plan`].
pub struct PlanView {
    pub workout: Seq<WorkoutExerciseView>,
    pub snoozed: Seq<SnoozedExerciseView>,
}

impl View for Plan {
    type V = PlanView;

    open spec fn view(&self) -> PlanView {
        PlanView { workout: views(self.workout@), snoozed: views(self.snoozed@) }
    }
}

/// The inputs of a run as mathematical values: what was loaded, what was
/// asked for, and the instant of the run in seconds since the Unix epoch.
pub struct Run {
    pub catalog: Seq<ExerciseView>,
    pub cooldowns: Seq<ExerciseView>,
    pub snoozed: Seq<SnoozedExerciseView>,
    pub types: Seq<ExerciseType>,
    pub level: ExerciseLevel,
    pub num_groups: u32,
    pub bodyweight: bool,
    pub now: int,
}

impl Run {
    /// The snooze entries that are still cooling down when the run begins.
    pub open spec fn active(self) -> Seq<SnoozedExerciseView> {
        active_entries(self.snoozed, self.now)
    }

    /// The candidate pool before it is shuffled: the exercises of the
    /// catalogue that pass the bodyweight and the snooze filter.
    pub open spec fn candidates(self) -> Seq<ExerciseView> {
        candidates(self.catalog, self.bodyweight, snoozed_names(self.active()))
    }

    /// Whether `order` is an order that the shuffled candidate pool can come
    /// out in: it holds the candidates, each as often as they occur.
    pub open spec fn is_arrangement(self, order: Seq<ExerciseView>) -> bool {
        order.to_multiset() == self.candidates().to_multiset()
    }

    /// The strength part that is generated from the pool in the order
    /// `order`.
    pub open spec fn strength(self, order: Seq<ExerciseView>) -> Selection {
        selection(order, self.types, self.level, self.num_groups as nat)
    }

    /// The cool-down exercises that are left to pick from once the strength
    /// part was generated from the pool in the order `order`: those whose
    /// name is neither snoozed nor picked in this run.
    pub open spec fn cooldown_pool(self, order: Seq<ExerciseView>) -> Seq<ExerciseView> {
        candidates(
            self.cooldowns,
            false,
            snoozed_names(self.active() + pick_entries(self.strength(order).picks, self.now)),
        )
    }

    /// The picks of the run in which the shuffled pool came out as `order`
    /// and the cool-down pick fell on position `choice` of the cool-down pool:
    /// the strength picks, then the cool-down, which counts as the pick of the
    /// group after the last.
    pub open spec fn picks(self, order: Seq<ExerciseView>, choice: int) -> Seq<Pick> {
        self.strength(order).picks.push(
            Pick { group: self.num_groups, exercise: self.cooldown_pool(order)[choice] },
        )
    }

    /// The plan that `picks` make: the warm-up placeholder and one row for
    /// each pick; the active snooze entries and one entry for each pick,
    /// recorded at the instant of the run.
    pub open spec fn plan_of(self, picks: Seq<Pick>) -> PlanView {
        PlanView {
            workout: seq![skill_block_row()] + pick_rows(picks),
            snoozed: self.active() + pick_entries(picks, self.now),
        }
    }

    /// Whether the run can end with `plan`: it does where the shuffled pool
    /// comes out as `order` and the cool-down pick falls on `choice`.
    pub open spec fn is_outcome(self, plan: PlanView, order: Seq<ExerciseView>, choice: int) -> bool {
        &&& self.is_arrangement(order)
        &&& 0 <= choice < self.cooldown_pool(order).len()
        &&& plan == self.plan_of(self.picks(order, choice))
    }

    /// Whether the run can find the cool-down pool empty: it does where the
    /// shuffled pool comes out as `order`.
    pub open spec fn is_dead_end(self, order: Seq<ExerciseView>) -> bool {
        &&& self.is_arrangement(order)
        &&& self.cooldown_pool(order).len() == 0
    }

    /// Whether a cool-down exercise is free whatever the strength part
    /// picks: its name is not snoozed, and no exercise of the catalogue bears
    /// it.
    pub open spec fn has_free_cooldown(self) -> bool {
        exists|c: ExerciseView| #[trigger]
            self.cooldowns.contains(c) && !snoozed_names(self.active()).contains(c.name) && forall|
                e: ExerciseView,
            | #[trigger] self.catalog.contains(e) ==> e.name != c.name
    }

    /// Whether every cool-down exercise bears a name that is snoozed when
    /// the run begins.
    pub open spec fn has_no_cooldown(self) -> bool {
        candidates(self.cooldowns, false, snoozed_names(self.active())).len() == 0
    }

    /// Whether the run can end with `plan`, for some order of the shuffled
    /// pool and some cool-down choice.
    pub open spec fn can_plan(self, plan: PlanView) -> bool {
        exists|order: Seq<ExerciseView>, choice: int| #[trigger] self.is_outcome(plan, order, choice)
    }

    /// Whether the run can find the cool-down pool empty, for some order of
    /// the shuffled pool.
    pub open spec fn can_fail(self) -> bool {
        exists|order: Seq<ExerciseView>| #[trigger] self.is_dead_end(order)
    }

    /// Whether `planned` is a result that the run can have: a plan that it
    /// can end with, or the error where it can find the cool-down pool empty.
    /// A run with a free cool-down exercise does not fail, and a run without
    /// any cool-down exercise does.
    pub open spec fn can_end_with(self, planned: Result<PlanView, WorkoutError>) -> bool {
        &&& match planned {
            Ok(plan) => self.can_plan(plan),
            Err(e) => e == WorkoutError::NoCooldownAvailable && self.can_fail(),
        }
        &&& self.has_free_cooldown() ==> planned is Ok
        &&& self.has_no_cooldown() ==> planned is Err
    }
}

/// The result of a run with the plan as a mathematical value.
pub open spec fn result_view(planned: Result<Plan, WorkoutError>) -> Result<PlanView, WorkoutError> {
    match planned {
        Ok(plan) => Ok(plan@),
        Err(e) => Err(e),
    }
}

/// The names of the entries of two lists put together are the names of
/// either.
proof fn lemma_names_of_both(
    a: Seq<SnoozedExerciseView>,
    b: Seq<SnoozedExerciseView>,
    name: Seq<char>,
)
    ensures
        snoozed_names(a + b).contains(name) <==> snoozed_names(a).contains(name) || snoozed_names(
            b,
        ).contains(name),
{
    assert(snoozed_names(a + b) == snoozed_names(a) + snoozed_names(b));
    if snoozed_names(a).contains(name) {
        let i = choose|i: int| 0 <= i < snoozed_names(a).len() && snoozed_names(a)[i] == name;
        assert((snoozed_names(a) + snoozed_names(b))[i] == name);
    }
    if snoozed_names(b).contains(name) {
        let i = choose|i: int| 0 <= i < snoozed_names(b).len() && snoozed_names(b)[i] == name;
        assert((snoozed_names(a) + snoozed_names(b))[a.len() + i] == name);
    }
}

/// A name is among the names of the entries of the picks exactly if it was
/// picked.
proof fn lemma_names_of_picks(picks: Seq<Pick>, now: int, name: Seq<char>)
    ensures
        snoozed_names(pick_entries(picks, now)).contains(name) <==> is_picked(picks, name),
{
    let names = snoozed_names(pick_entries(picks, now));
    if names.contains(name) {
        let i = choose|i: int| 0 <= i < names.len() && names[i] == name;
        assert(picks[i].exercise.name == name);
    }
    if is_picked(picks, name) {
        let i = choose|i: int| 0 <= i < picks.len() && (#[trigger] picks[i]).exercise.name == name;
        assert(names[i] == name);
    }
}

/// An exercise is in an arrangement exactly if it is a candidate of the
/// catalogue.
proof fn lemma_arrangement_membership(run: Run, order: Seq<ExerciseView>, e: ExerciseView)
    requires
        run.is_arrangement(order),
    ensures
        order.contains(e) <==> run.catalog.contains(e) && is_candidate(
            e,
            run.bodyweight,
            snoozed_names(run.active()),
        ),
{
    vstd::seq_lib::to_multiset_contains(order, e);
    vstd::seq_lib::to_multiset_contains(run.candidates(), e);
    lemma_filter_membership(
        run.catalog,
        |x: ExerciseView| is_candidate(x, run.bodyweight, snoozed_names(run.active())),
        e,
    );
}

/// What holds of the picks of every run that ends with a plan. No two picks,
/// the cool-down included, are exercises of the same name, so no two rows
/// after the warm-up placeholder stand for exercises of the same name. No
/// pick bears a name that was snoozed when the run began. Every strength
/// pick is a candidate of the catalogue, and the cool-down is one of the
/// cool-down exercises.
pub proof fn lemma_plan_picks_are_sound(
    run: Run,
    plan: PlanView,
    order: Seq<ExerciseView>,
    choice: int,
)
    requires
        run.is_outcome(plan, order, choice),
    ensures
        ({
            let picks = run.picks(order, choice);
            &&& plan.workout == seq![skill_block_row()] + pick_rows(picks)
            &&& plan.snoozed == run.active() + pick_entries(picks, run.now)
            &&& distinct_names(picks)
            &&& forall|k: int|
                0 <= k < picks.len() ==> !snoozed_names(run.active()).contains(
                    (#[trigger] picks[k]).exercise.name,
                )
            &&& forall|k: int|
                0 <= k < picks.len() - 1 ==> run.catalog.contains((#[trigger] picks[k]).exercise)
                    && is_candidate(
                    picks[k].exercise,
                    run.bodyweight,
                    snoozed_names(run.active()),
                )
            &&& run.cooldowns.contains(picks.last().exercise)
        }),
{
    let active = run.active();
    let made = run.strength(order);
    let entries = active + pick_entries(made.picks, run.now);
    let pool = run.cooldown_pool(order);
    let last = pool[choice];
    let picks = run.picks(order, choice);
    lemma_selection_is_sound(order, run.types, run.level, run.num_groups as nat);
    lemma_filter_membership(
        run.cooldowns,
        |x: ExerciseView| is_candidate(x, false, snoozed_names(entries)),
        last,
    );
    lemma_names_of_both(active, pick_entries(made.picks, run.now), last.name);
    lemma_names_of_picks(made.picks, run.now, last.name);
    assert forall|i: int, j: int| 0 <= i < j < picks.len() implies (
    #[trigger] picks[i]).exercise.name != (#[trigger] picks[j]).exercise.name by {
        if j == made.picks.len() {
            assert(!is_picked(made.picks, last.name));
        } else {
            assert(made.picks[i].exercise.name != made.picks[j].exercise.name);
        }
    }
    assert forall|k: int| 0 <= k < picks.len() - 1 implies run.catalog.contains(
        (#[trigger] picks[k]).exercise,
    ) && is_candidate(picks[k].exercise, run.bodyweight, snoozed_names(active)) by {
        lemma_arrangement_membership(run, order, made.picks[k].exercise);
    }
    assert forall|k: int| 0 <= k < picks.len() implies !snoozed_names(active).contains(
        (#[trigger] picks[k]).exercise.name,
    ) by {
        if k < made.picks.len() {
            assert(is_candidate(picks[k].exercise, run.bodyweight, snoozed_names(active)));
        }
    }
}

/// What holds of the rows of every run that ends with a plan: the first row
/// is the warm-up placeholder, at most one row follows for each group and
/// requested type, and the last row is the cool-down, in the group after the
/// last strength group. One snooze entry is added for each row after the
/// placeholder.
pub proof fn lemma_plan_shape(run: Run, plan: PlanView, order: Seq<ExerciseView>, choice: int)
    requires
        run.num_groups <= u32::MAX - 2,
        run.is_outcome(plan, order, choice),
    ensures
        2 <= plan.workout.len() <= 2 + run.num_groups * run.types.len(),
        plan.workout[0] == skill_block_row(),
        plan.workout.last().group == run.num_groups + 2,
        plan.snoozed.len() == run.active().len() + plan.workout.len() - 1,
        forall|k: int|
            1 <= k < plan.workout.len() ==> 2 <= (#[trigger] plan.workout[k]).group
                <= run.num_groups + 2,
{
    let made = run.strength(order);
    lemma_selection_is_sound(order, run.types, run.level, run.num_groups as nat);
    lemma_selection_size(order, run.types, run.level, run.num_groups as nat);
    let picks = run.picks(order, choice);
    assert forall|k: int| 1 <= k < plan.workout.len() implies 2 <= (
    #[trigger] plan.workout[k]).group <= run.num_groups + 2 by {
        assert(plan.workout[k] == pick_rows(picks)[k - 1]);
        if k - 1 < made.picks.len() {
            assert(is_regular(made.picks[k - 1], run.types, run.level, run.num_groups as nat));
        }
    }
}

/// A run cannot find the cool-down pool empty while a cool-down exercise is
/// free.
pub proof fn lemma_free_cooldown_is_found(run: Run, order: Seq<ExerciseView>)
    requires
        run.is_arrangement(order),
        run.has_free_cooldown(),
    ensures
        !run.is_dead_end(order),
{
    let active = run.active();
    let made = run.strength(order);
    let entries = active + pick_entries(made.picks, run.now);
    let pool = run.cooldown_pool(order);
    let c = choose|c: ExerciseView| #[trigger]
        run.cooldowns.contains(c) && !snoozed_names(active).contains(c.name) && forall|
            e: ExerciseView,
        | #[trigger] run.catalog.contains(e) ==> e.name != c.name;
    lemma_selection_is_sound(order, run.types, run.level, run.num_groups as nat);
    if is_picked(made.picks, c.name) {
        let k = choose|k: int|
            0 <= k < made.picks.len() && (#[trigger] made.picks[k]).exercise.name == c.name;
        lemma_arrangement_membership(run, order, made.picks[k].exercise);
    }
    lemma_names_of_both(active, pick_entries(made.picks, run.now), c.name);
    lemma_names_of_picks(made.picks, run.now, c.name);
    lemma_filter_membership(
        run.cooldowns,
        |x: ExerciseView| is_candidate(x, false, snoozed_names(entries)),
        c,
    );
}

/// A run cannot end with a plan where every cool-down exercise bears a name
/// that was snoozed when the run began.
pub proof fn lemma_plan_needs_cooldown(
    run: Run,
    plan: PlanView,
    order: Seq<ExerciseView>,
    choice: int,
)
    requires
        run.is_outcome(plan, order, choice),
    ensures
        !run.has_no_cooldown(),
{
    let active = run.active();
    let made = run.strength(order);
    let entries = active + pick_entries(made.picks, run.now);
    let pool = run.cooldown_pool(order);
    let c = pool[choice];
    lemma_filter_membership(
        run.cooldowns,
        |x: ExerciseView| is_candidate(x, false, snoozed_names(entries)),
        c,
    );
    lemma_names_of_both(active, pick_entries(made.picks, run.now), c.name);
    lemma_filter_membership(
        run.cooldowns,
        |x: ExerciseView| is_candidate(x, false, snoozed_names(active)),
        c,
    );
    let kept = candidates(run.cooldowns, false, snoozed_names(active));
}

/// A run that follows another within the week is offered none of the
/// exercises that the first one picked. Let the first run end with `plan`,
/// and the second load the snooze list of that plan at the instant `later`,
/// less than seven days on. Then an exercise `e` that bears the name of a pick
/// of the first run is no candidate of the second: not for the strength part,
/// whatever catalogue is loaded, and not for the cool-down, whatever entries
/// `more` the second run has added by then.
pub proof fn lemma_rerun_excludes_picks(
    run: Run,
    plan: PlanView,
    order: Seq<ExerciseView>,
    choice: int,
    k: int,
    later: int,
    catalog: Seq<ExerciseView>,
    bodyweight: bool,
    more: Seq<SnoozedExerciseView>,
    e: ExerciseView,
)
    requires
        run.is_outcome(plan, order, choice),
        0 <= k < run.picks(order, choice).len(),
        e.name == run.picks(order, choice)[k].exercise.name,
        later - run.now < SNOOZE_PERIOD * SECONDS_PER_DAY,
    ensures
        !candidates(
            catalog,
            bodyweight,
            snoozed_names(active_entries(plan.snoozed, later) + more),
        ).contains(e),
{
    let active = run.active();
    let recorded = entry(e.name, run.now);
    assert(plan.snoozed[active.len() + k] == recorded);
    lemma_active_entries_are_kept(plan.snoozed, later, recorded);
    let kept = active_entries(plan.snoozed, later);
    let i = choose|i: int| 0 <= i < kept.len() && kept[i] == recorded;
    assert(snoozed_names(kept)[i] == e.name);
    lemma_names_of_both(kept, more, e.name);
    lemma_filter_membership(
        catalog,
        |x: ExerciseView| is_candidate(x, bodyweight, snoozed_names(kept + more)),
        e,
    );
}

/// The inputs of a run on these values at the instant `now`.
pub open spec fn run_of(
    catalog: Seq<Exercise>,
    cooldowns: Seq<Exercise>,
    snoozed: Seq<SnoozedExercise>,
    types: Seq<ExerciseType>,
    level: ExerciseLevel,
    num_groups: u32,
    bodyweight: bool,
    now: int,
) -> Run {
    Run {
        catalog: views(catalog),
        cooldowns: views(cooldowns),
        snoozed: views(snoozed),
        types,
        level,
        num_groups,
        bodyweight,
        now,
    }
}

/// Generates a workout at the instant `now`, given in seconds since the Unix
/// epoch.
///
/// The expired entries of `snoozed` are dropped. The catalogue is narrowed to
/// the candidates (bodyweight exercises only where `bodyweight` is set, none
/// whose name is snoozed) and shuffled; the strength part is generated from
/// it. The cool-down is then picked at random among the exercises of
/// `cooldowns` whose name is neither snoozed nor picked in this run. Every
/// pick is recorded at `now`.
///
/// The run fails where no cool-down exercise is left to pick. It succeeds
/// where one is free whatever was picked before; it fails where all are
/// snoozed from the start.
pub fn plan_workout_at(
    catalog: Vec<Exercise>,
    cooldowns: Vec<Exercise>,
    snoozed: Vec<SnoozedExercise>,
    types: &[ExerciseType],
    level: &ExerciseLevel,
    num_groups: u32,
    bodyweight: bool,
    now: i64,
) -> (planned: Result<Plan, WorkoutError>)
    requires
        num_groups <= u32::MAX - 2,
    ensures
        run_of(
            catalog@,
            cooldowns@,
            snoozed@,
            types@,
            *level,
            num_groups,
            bodyweight,
            now as int,
        ).can_end_with(result_view(planned)),
{
    let ghost run = run_of(
        catalog@,
        cooldowns@,
        snoozed@,
        types@,
        *level,
        num_groups,
        bodyweight,
        now as int,
    );
    let mut active = load_active(snoozed, now);
    let mut pool = catalog;
    filter_exercises(&mut pool, bodyweight, active.as_slice());
    let ghost order = views(pool@);
    let mut workout = generate_workout(&mut pool, types, level, num_groups, &mut active, now);
    let ghost rows = views(workout@);
    let ghost entries = views(active@);
    let mut cooldown_exercises = cooldowns;
    retain_candidates(&mut cooldown_exercises, false, active.as_slice());
    let ghost left = views(cooldown_exercises@);
    match add_cooldown_exercise(&mut workout, &mut cooldown_exercises, &mut active, num_groups, now) {
        Ok(()) => {
            let ghost choice = choose|choice: int| #[trigger]
                cooldown_taken(
                    choice,
                    num_groups,
                    now as int,
                    left,
                    views(cooldown_exercises@),
                    rows,
                    views(workout@),
                    entries,
                    views(active@),
                );
            let plan = Plan { workout, snoozed: active };
            proof {
                let picks = run.picks(order, choice);
                assert(plan@.workout == seq![skill_block_row()] + pick_rows(picks));
                assert(plan@.snoozed == run.active() + pick_entries(picks, now as int));
                assert(run.is_outcome(plan@, order, choice));
                lemma_plan_needs_cooldown(run, plan@, order, choice);
            }
            Ok(plan)
        },
        Err(e) => {
            proof {
                assert(run.is_dead_end(order));
                if run.has_free_cooldown() {
                    lemma_free_cooldown_is_found(run, order);
                }
            }
            Err(e)
        },
    }
}

/// Generates a workout now: reads the clock once and runs
/// [`plan_workout_at`] at that instant, so the result is one that a run at
/// some instant can have.
pub fn plan_workout(
    catalog: Vec<Exercise>,
    cooldowns: Vec<Exercise>,
    snoozed: Vec<SnoozedExercise>,
    types: &[ExerciseType],
    level: &ExerciseLevel,
    num_groups: u32,
    bodyweight: bool,
) -> (planned: Result<Plan, WorkoutError>)
    requires
        num_groups <= u32::MAX - 2,
    ensures
        exists|now: int|
            i64::MIN <= now <= i64::MAX && (#[trigger] run_of(
                catalog@,
                cooldowns@,
                snoozed@,
                types@,
                *level,
                num_groups,
                bodyweight,
                now,
            )).can_end_with(result_view(planned)),
{
    let now = current_timestamp();
    plan_workout_at(catalog, cooldowns, snoozed, types, level, num_groups, bodyweight, now)
}

} // verus!
