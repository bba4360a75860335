//! The snooze tracker: which exercises are cooling down after recent use.
//!
//! An exercise that was put into a workout is snoozed for a week, counted in
//! whole days from the second it was recorded at.

use vstd::prelude::*;
use crate::sequences::views;

verus! {

/// The length of the cooldown window, in days.
pub const SNOOZE_PERIOD: i64 = 7;

/// The number of seconds in a day.
pub const SECONDS_PER_DAY: i64 = 86_400;

/// The name of the file of the exercise library that holds the snooze list.
pub fn snoozed_file_name() -> (name: &'static str)
    ensures
        name@ == "snoozed.csv"@,
{
    "snoozed.csv"
}

/// The name of an exercise that was used, and when: seconds since the Unix
/// epoch.
#[derive(Debug)]
pub struct SnoozedExercise {
    pub name: String,
    pub timestamp: i64,
}

/// The mathematical content of a [`SnoozedExercise`].
pub struct SnoozedExerciseView {
    pub name: Seq<char>,
    pub timestamp: int,
}

impl View for SnoozedExercise {
    type V = SnoozedExerciseView;

    open spec fn view(&self) -> SnoozedExerciseView {
        SnoozedExerciseView { name: self.name@, timestamp: self.timestamp as int }
    }
}

impl Clone for SnoozedExercise {
    fn clone(&self) -> (copy: Self)
        ensures
            copy@ == self@,
    {
        SnoozedExercise { name: self.name.clone(), timestamp: self.timestamp }
    }
}

/// The whole days between the instants `then` and `now`, rounded toward zero;
/// negative where `then` lies after `now`.
pub open spec fn elapsed_days(now: int, then: int) -> int {
    if now >= then {
        (now - then) / (SECONDS_PER_DAY as int)
    } else {
        -((then - now) / (SECONDS_PER_DAY as int))
    }
}

/// Whether an entry recorded at `timestamp` is still cooling down at `now`:
/// fewer than seven whole days have passed.
pub open spec fn active_at(timestamp: int, now: int) -> bool {
    elapsed_days(now, timestamp) < SNOOZE_PERIOD
}

/// The entries of `all` that are still cooling down at `now`, in order.
pub open spec fn active_entries(all: Seq<SnoozedExerciseView>, now: int) -> Seq<
    SnoozedExerciseView,
> {
    all.filter(|s: SnoozedExerciseView| active_at(s.timestamp, now))
}

/// The entry that records the use of the exercise called `name` at `now`.
pub open spec fn entry(name: Seq<char>, now: int) -> SnoozedExerciseView {
    SnoozedExerciseView { name, timestamp: now }
}

/// The names of the entries, in order.
pub open spec fn snoozed_names(entries: Seq<SnoozedExerciseView>) -> Seq<Seq<char>> {
    entries.map_values(|s: SnoozedExerciseView| s.name)
}

/// An entry is active exactly while less than a week of seconds has passed
/// since it was recorded.
pub proof fn lemma_active_iff_within_week(timestamp: int, now: int)
    ensures
        active_at(timestamp, now) <==> now - timestamp < SNOOZE_PERIOD * SECONDS_PER_DAY,
{
    if now >= timestamp {
        let d = now - timestamp;
        assert(d / 86_400 < 7 <==> d < 604_800) by (nonlinear_arith)
            requires
                d >= 0,
        ;
    } else {
        let d = timestamp - now;
        assert(d / 86_400 >= 0) by (nonlinear_arith)
            requires
                d >= 0,
        ;
    }
}

/// An entry that is seven days old or older is not among the active
/// entries.
pub proof fn lemma_expired_entries_are_dropped(
    all: Seq<SnoozedExerciseView>,
    now: int,
    s: SnoozedExerciseView,
)
    requires
        now - s.timestamp >= SNOOZE_PERIOD * SECONDS_PER_DAY,
    ensures
        !active_entries(all, now).contains(s),
{
    lemma_active_iff_within_week(s.timestamp, now);
    let keep = |x: SnoozedExerciseView| active_at(x.timestamp, now);
    if all.filter(keep).contains(s) {
        all.lemma_filter_contains_rev(keep, s);
    }
}

/// An entry of `all` that is less than seven days old is among the active
/// entries, and the active entries are entries of `all`.
pub proof fn lemma_active_entries_are_kept(
    all: Seq<SnoozedExerciseView>,
    now: int,
    s: SnoozedExerciseView,
)
    ensures
        active_entries(all, now).contains(s) <==> all.contains(s) && now - s.timestamp
            < SNOOZE_PERIOD * SECONDS_PER_DAY,
{
    lemma_active_iff_within_week(s.timestamp, now);
    let keep = |x: SnoozedExerciseView| active_at(x.timestamp, now);
    if all.filter(keep).contains(s) {
        all.lemma_filter_contains_rev(keep, s);
    }
    if all.contains(s) && keep(s) {
        let i = choose|i: int| 0 <= i < all.len() && all[i] == s;
        all.lemma_filter_contains(keep, i);
    }
}

/// Reads the clock: `chrono::Utc::now`, as whole seconds since the Unix epoch
/// by `DateTime::timestamp`. Nothing is claimed of the instant read. `now`
/// panics where the system clock stands before the epoch.
#[verifier::external_body]
pub(crate) fn current_timestamp() -> i64 {
    chrono::Utc::now().timestamp()
}

/// Whether `snoozed` is still cooling down at `now`.
pub fn is_active(snoozed: &SnoozedExercise, now: i64) -> (active: bool)
    ensures
        active == active_at(snoozed@.timestamp, now as int),
{
    proof {
        lemma_active_iff_within_week(snoozed@.timestamp, now as int);
    }
    let elapsed: i128 = now as i128 - snoozed.timestamp as i128;
    elapsed < 604_800
}

/// Keeps the entries that are still cooling down at `now` and drops the
/// expired ones.
pub fn load_active(all: Vec<SnoozedExercise>, now: i64) -> (active: Vec<SnoozedExercise>)
    ensures
        views(active@) == active_entries(views(all@), now as int),
{
    let mut active: Vec<SnoozedExercise> = Vec::new();
    assert(active_entries(Seq::empty(), now as int) == Seq::<SnoozedExerciseView>::empty()) by {
        reveal(Seq::filter);
    }
    for s in it: all.into_iter()
        invariant
            it.seq() == all@,
            views(active@) == active_entries(views(all@.take(it.index() as int)), now as int),
    {
        proof {
            let k = it.index() as int;
            assert(views(all@.take(k + 1)) == views(all@.take(k)).push(s@));
            views(all@.take(k)).lemma_filter_push(
                s@,
                |x: SnoozedExerciseView| active_at(x.timestamp, now as int),
            );
        }
        if is_active(&s, now) {
            active.push(s);
        }
    }
    assert(all@.take(all@.len() as int) == all@);
    active
}

/// The entry that records the use of the exercise called `name` at `now`.
pub fn record(name: &str, now: i64) -> (snoozed: SnoozedExercise)
    ensures
        snoozed@ == entry(name@, now as int),
{
    SnoozedExercise { name: name.to_owned(), timestamp: now }
}

} // verus!
