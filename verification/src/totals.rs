//! Grouping loses nothing: the groups hold as many entries and as many
//! minutes as the list that was grouped.

use vstd::prelude::*;
use vstd::seq_lib::{commutative_foldl, lemma_fold_left_permutation};
use crate::date::Date;
use crate::entries::{entry_line, ungrouped};
use crate::grouping::{
    days_ascend, group_days, grouped_by_date, is_day_of, on_day, sum_minutes, DayGroup,
};
use crate::model::TimeEntry;

verus! {

/// The number of entries in all the groups.
pub open spec fn total_count(groups: Seq<DayGroup>) -> nat
    decreases groups.len(),
{
    if groups.len() == 0 {
        0
    } else {
        total_count(groups.drop_last()) + groups.last().members@.len()
    }
}

/// The sums of all the groups together.
pub open spec fn total_minutes(groups: Seq<DayGroup>) -> nat
    decreases groups.len(),
{
    if groups.len() == 0 {
        0
    } else {
        total_minutes(groups.drop_last()) + groups.last().total as nat
    }
}

spec fn one() -> spec_fn(TimeEntry) -> nat {
    |e: TimeEntry| 1nat
}

spec fn minutes_of() -> spec_fn(TimeEntry) -> nat {
    |e: TimeEntry| e.minutes.0 as nat
}

/// The weights of the entries together.
spec fn weigh(entries: Seq<TimeEntry>, w: spec_fn(TimeEntry) -> nat) -> nat
    decreases entries.len(),
{
    if entries.len() == 0 {
        0
    } else {
        weigh(entries.drop_last(), w) + w(entries.last())
    }
}

/// The weights of the entries whose day is among `days`.
spec fn weigh_on(entries: Seq<TimeEntry>, days: Seq<Date>, w: spec_fn(TimeEntry) -> nat) -> nat
    decreases entries.len(),
{
    if entries.len() == 0 {
        0
    } else {
        weigh_on(entries.drop_last(), days, w) + if days.contains(entries.last().date) {
            w(entries.last())
        } else {
            0
        }
    }
}

/// The weights of the entries, taken day by day.
spec fn weigh_days(entries: Seq<TimeEntry>, days: Seq<Date>, w: spec_fn(TimeEntry) -> nat) -> nat
    decreases days.len(),
{
    if days.len() == 0 {
        0
    } else {
        weigh_days(entries, days.drop_last(), w) + weigh(entries.filter(on_day(days.last())), w)
    }
}

proof fn lemma_count_is_weight(entries: Seq<TimeEntry>)
    ensures
        weigh(entries, one()) == entries.len(),
    decreases entries.len(),
{
    if entries.len() > 0 {
        lemma_count_is_weight(entries.drop_last());
    }
}

proof fn lemma_minutes_is_weight(entries: Seq<TimeEntry>)
    ensures
        weigh(entries, minutes_of()) == sum_minutes(entries),
    decreases entries.len(),
{
    if entries.len() > 0 {
        lemma_minutes_is_weight(entries.drop_last());
    }
}

proof fn lemma_push_contains(days: Seq<Date>, d: Date, x: Date)
    ensures
        days.push(d).contains(x) <==> (days.contains(x) || x == d),
{
    if days.contains(x) {
        let i = choose|i: int| 0 <= i < days.len() && days[i] == x;
        assert(days.push(d)[i] == x);
    }
    if x == d {
        assert(days.push(d)[days.len() as int] == x);
    }
    if days.push(d).contains(x) {
        let i = choose|i: int| 0 <= i < days.push(d).len() && days.push(d)[i] == x;
        if i < days.len() {
            assert(days[i] == x);
        }
    }
}

proof fn lemma_one_more_day(
    entries: Seq<TimeEntry>,
    days: Seq<Date>,
    d: Date,
    w: spec_fn(TimeEntry) -> nat,
)
    requires
        !days.contains(d),
    ensures
        weigh_on(entries, days.push(d), w) == weigh_on(entries, days, w) + weigh(
            entries.filter(on_day(d)),
            w,
        ),
    decreases entries.len(),
{
    reveal(Seq::filter);
    if entries.len() > 0 {
        let e = entries.last();
        let rest = entries.drop_last();
        lemma_one_more_day(rest, days, d, w);
        lemma_push_contains(days, d, e.date);
        if e.date == d {
            assert(entries.filter(on_day(d)) == rest.filter(on_day(d)).push(e));
            assert(rest.filter(on_day(d)).push(e).drop_last() =~= rest.filter(on_day(d)));
        } else {
            assert(entries.filter(on_day(d)) == rest.filter(on_day(d)));
        }
    } else {
        assert(entries.filter(on_day(d)).len() == 0);
    }
}

proof fn lemma_no_day(entries: Seq<TimeEntry>, w: spec_fn(TimeEntry) -> nat)
    ensures
        weigh_on(entries, Seq::<Date>::empty(), w) == 0,
    decreases entries.len(),
{
    if entries.len() > 0 {
        lemma_no_day(entries.drop_last(), w);
        assert(!Seq::<Date>::empty().contains(entries.last().date));
    }
}

proof fn lemma_day_by_day(entries: Seq<TimeEntry>, days: Seq<Date>, w: spec_fn(TimeEntry) -> nat)
    requires
        days_ascend(days),
    ensures
        weigh_days(entries, days, w) == weigh_on(entries, days, w),
    decreases days.len(),
{
    if days.len() == 0 {
        assert(days =~= Seq::<Date>::empty());
        lemma_no_day(entries, w);
    } else {
        let rest = days.drop_last();
        let d = days.last();
        lemma_day_by_day(entries, rest, w);
        if rest.contains(d) {
            let i = choose|i: int| 0 <= i < rest.len() && rest[i] == d;
            assert(days[i].ordinal() < days[days.len() - 1].ordinal());
        }
        lemma_one_more_day(entries, rest, d, w);
        assert(rest.push(d) =~= days);
    }
}

proof fn lemma_every_day(entries: Seq<TimeEntry>, days: Seq<Date>, w: spec_fn(TimeEntry) -> nat)
    requires
        forall|k: int| 0 <= k < entries.len() ==> days.contains(#[trigger] entries[k].date),
    ensures
        weigh_on(entries, days, w) == weigh(entries, w),
    decreases entries.len(),
{
    if entries.len() > 0 {
        let rest = entries.drop_last();
        assert(days.contains(entries[entries.len() - 1].date));
        assert forall|k: int| 0 <= k < rest.len() implies days.contains(
            #[trigger] rest[k].date,
        ) by {
            assert(rest[k] == entries[k]);
        }
        lemma_every_day(rest, days, w);
    }
}

proof fn lemma_group_totals(entries: Seq<TimeEntry>, groups: Seq<DayGroup>)
    requires
        forall|i: int| 0 <= i < groups.len() ==> is_day_of(entries, #[trigger] groups[i]),
    ensures
        total_count(groups) == weigh_days(entries, group_days(groups), one()),
        total_minutes(groups) == weigh_days(entries, group_days(groups), minutes_of()),
    decreases groups.len(),
{
    if groups.len() > 0 {
        let rest = groups.drop_last();
        let last = groups.last();
        assert forall|i: int| 0 <= i < rest.len() implies is_day_of(entries, #[trigger] rest[i]) by {
            assert(rest[i] == groups[i]);
        }
        lemma_group_totals(entries, rest);
        assert(group_days(rest) =~= group_days(groups).drop_last());
        assert(group_days(groups).last() == last.date);
        assert(is_day_of(entries, groups[groups.len() - 1]));
        lemma_count_is_weight(last.members@);
        lemma_minutes_is_weight(last.members@);
    } else {
        assert(group_days(groups).len() == 0);
    }
}

/// Grouping by day keeps the number of entries and the sum of their minutes,
/// in whatever order the entries were given.
pub proof fn law_grouping_keeps_totals(entries: Seq<TimeEntry>, groups: Seq<DayGroup>)
    requires
        grouped_by_date(entries, groups),
    ensures
        total_count(groups) == entries.len(),
        total_minutes(groups) == sum_minutes(entries),
{
    let days = group_days(groups);
    lemma_group_totals(entries, groups);
    lemma_day_by_day(entries, days, one());
    lemma_day_by_day(entries, days, minutes_of());
    lemma_every_day(entries, days, one());
    lemma_every_day(entries, days, minutes_of());
    lemma_count_is_weight(entries);
    lemma_minutes_is_weight(entries);
}

spec fn add_minutes() -> spec_fn(nat, TimeEntry) -> nat {
    |sum: nat, e: TimeEntry| sum + e.minutes.0 as nat
}

proof fn lemma_minutes_fold(entries: Seq<TimeEntry>)
    ensures
        sum_minutes(entries) == entries.fold_left(0nat, add_minutes()),
    decreases entries.len(),
{
    if entries.len() > 0 {
        lemma_minutes_fold(entries.drop_last());
    }
}

/// Two lists of the same entries in different orders have, once grouped, the
/// same number of entries and the same minutes in their groups.
pub proof fn law_totals_ignore_order(
    entries: Seq<TimeEntry>,
    shuffled: Seq<TimeEntry>,
    groups: Seq<DayGroup>,
    regrouped: Seq<DayGroup>,
)
    requires
        entries.to_multiset() == shuffled.to_multiset(),
        grouped_by_date(entries, groups),
        grouped_by_date(shuffled, regrouped),
    ensures
        total_count(groups) == total_count(regrouped),
        total_minutes(groups) == total_minutes(regrouped),
{
    law_grouping_keeps_totals(entries, groups);
    law_grouping_keeps_totals(shuffled, regrouped);
    entries.to_multiset_ensures();
    shuffled.to_multiset_ensures();
    lemma_minutes_fold(entries);
    lemma_minutes_fold(shuffled);
    assert(commutative_foldl(add_minutes()));
    lemma_fold_left_permutation(entries, shuffled, add_minutes(), 0nat);
}

proof fn lemma_ungrouped_count(groups: Seq<DayGroup>)
    ensures
        ungrouped(groups).len() == total_count(groups),
    decreases groups.len(),
{
    if groups.len() > 0 {
        lemma_ungrouped_count(groups.drop_last());
    }
}

/// The flat form of grouped entries has one line for each entry that was
/// grouped.
pub proof fn law_flat_has_a_line_for_each_entry(entries: Seq<TimeEntry>, groups: Seq<DayGroup>)
    requires
        grouped_by_date(entries, groups),
    ensures
        ungrouped(groups).map_values(|e: TimeEntry| entry_line(e)).len() == entries.len(),
{
    lemma_ungrouped_count(groups);
    law_grouping_keeps_totals(entries, groups);
}

} // verus!
