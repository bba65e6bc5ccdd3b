//! Time entries grouped by day, days ascending, each day's entries in the
//! order in which they were given.

use vstd::prelude::*;
use crate::date::Date;
use crate::model::{Record, TimeEntry};

verus! {

/// The entries of one day with the sum of their minutes.
#[derive(Clone, Debug, PartialEq, Eq)]
pub struct DayGroup {
    pub date: Date,
    pub total: u128,
    pub members: Vec<TimeEntry>,
}

/// The test "is an entry of this day".
pub open spec fn on_day(date: Date) -> spec_fn(TimeEntry) -> bool {
    |e: TimeEntry| e.date == date
}

/// The minutes of all the entries together.
pub open spec fn sum_minutes(entries: Seq<TimeEntry>) -> nat
    decreases entries.len(),
{
    if entries.len() == 0 {
        0
    } else {
        sum_minutes(entries.drop_last()) + entries.last().minutes.0 as nat
    }
}

/// The days are strictly ascending.
pub open spec fn days_ascend(days: Seq<Date>) -> bool {
    forall|i: int, j: int| 0 <= i < j < days.len() ==> days[i].ordinal() < days[j].ordinal()
}

/// `days` holds the days of `entries`: each of them, and no other.
pub open spec fn days_cover(entries: Seq<TimeEntry>, days: Seq<Date>) -> bool {
    &&& forall|k: int| 0 <= k < entries.len() ==> days.contains(#[trigger] entries[k].date)
    &&& forall|i: int|
        0 <= i < days.len() ==> entries.filter(on_day(#[trigger] days[i])).len() > 0
}

/// The days of the groups, in their order.
pub open spec fn group_days(groups: Seq<DayGroup>) -> Seq<Date> {
    groups.map_values(|g: DayGroup| g.date)
}

/// The group holds the entries of its day, in the order of `entries`, and
/// their sum.
pub open spec fn is_day_of(entries: Seq<TimeEntry>, group: DayGroup) -> bool {
    &&& group.members@ == entries.filter(on_day(group.date))
    &&& group.total == sum_minutes(group.members@)
}

/// `groups` is `entries` grouped by day: one group for each day that occurs,
/// days ascending, no group empty, and within a day the order of `entries`.
pub open spec fn grouped_by_date(entries: Seq<TimeEntry>, groups: Seq<DayGroup>) -> bool {
    &&& days_ascend(group_days(groups))
    &&& days_cover(entries, group_days(groups))
    &&& forall|i: int| 0 <= i < groups.len() ==> is_day_of(entries, #[trigger] groups[i])
}

/// The sum of the minutes of a list of entries.
pub fn minutes_total(entries: &Vec<TimeEntry>) -> (total: u128)
    ensures
        total == sum_minutes(entries@),
{
    let mut total: u128 = 0;
    let mut i: usize = 0;
    while i < entries.len()
        invariant
            i <= entries.len(),
            total == sum_minutes(entries@.take(i as int)),
            total <= i * 0xffff_ffff,
        decreases entries.len() - i,
    {
        assert(entries@.take(i + 1).drop_last() =~= entries@.take(i as int));
        total = total + entries[i].minutes.0 as u128;
        i += 1;
    }
    assert(entries@.take(entries.len() as int) =~= entries@);
    total
}

/// The entries of one day, in the order of `entries`.
pub fn entries_on(entries: &Vec<TimeEntry>, date: Date) -> (members: Vec<TimeEntry>)
    ensures
        members@ == entries@.filter(on_day(date)),
{
    let mut members: Vec<TimeEntry> = Vec::new();
    let mut i: usize = 0;
    proof {
        reveal(Seq::filter);
    }
    while i < entries.len()
        invariant
            i <= entries.len(),
            members@ == entries@.take(i as int).filter(on_day(date)),
        decreases entries.len() - i,
    {
        proof {
            assert(entries@.take(i + 1) =~= entries@.take(i as int).push(entries@[i as int]));
            entries@.take(i as int).lemma_filter_push(entries@[i as int], on_day(date));
        }
        if entries[i].date.same(&date) {
            members.push(entries[i].duplicate());
        }
        i += 1;
    }
    assert(entries@.take(entries.len() as int) =~= entries@);
    members
}

/// An entry of the day is among the entries: so the day's group is not empty.
proof fn lemma_day_occurs(entries: Seq<TimeEntry>, k: int)
    requires
        0 <= k < entries.len(),
    ensures
        entries.filter(on_day(entries[k].date)).len() > 0,
{
    entries.lemma_filter_contains(on_day(entries[k].date), k);
}

/// Taking more entries into account empties no day.
proof fn lemma_day_stays(entries: Seq<TimeEntry>, k: int, date: Date)
    requires
        0 <= k < entries.len(),
        entries.take(k).filter(on_day(date)).len() > 0,
    ensures
        entries.take(k + 1).filter(on_day(date)).len() > 0,
{
    assert(entries.take(k + 1) =~= entries.take(k).push(entries[k]));
    entries.take(k).lemma_filter_push(entries[k], on_day(date));
}

/// The days on which there are entries, each once, ascending.
pub fn distinct_dates(entries: &Vec<TimeEntry>) -> (days: Vec<Date>)
    ensures
        days_ascend(days@),
        days_cover(entries@, days@),
{
    let mut days: Vec<Date> = Vec::new();
    let mut k: usize = 0;
    proof {
        reveal(Seq::filter);
    }
    while k < entries.len()
        invariant
            k <= entries.len(),
            days_ascend(days@),
            days_cover(entries@.take(k as int), days@),
        decreases entries.len() - k,
    {
        let date = entries[k].date;
        let mut p: usize = 0;
        while p < days.len() && days[p].before(&date)
            invariant
                p <= days.len(),
                forall|i: int| 0 <= i < p ==> days@[i].ordinal() < date.ordinal(),
            decreases days.len() - p,
        {
            p += 1;
        }
        let ghost before = days@;
        let ghost seen = entries@.take(k as int);
        let ghost next = entries@.take(k + 1);
        proof {
            assert(next =~= seen.push(entries@[k as int]));
            assert(next[k as int] == entries@[k as int]);
            lemma_day_occurs(next, k as int);
        }
        if p < days.len() && days[p].same(&date) {
            proof {
                assert(days@.contains(date));
                assert forall|i: int| 0 <= i < days@.len() implies next.filter(
                    on_day(#[trigger] days@[i]),
                ).len() > 0 by {
                    lemma_day_stays(entries@, k as int, days@[i]);
                }
                assert forall|j: int| 0 <= j < next.len() implies days@.contains(
                    #[trigger] next[j].date,
                ) by {
                    if j < k {
                        assert(next[j] == seen[j]);
                    }
                }
            }
        } else {
            days.insert(p, date);
            proof {
                assert(days@[p as int] == date);
                assert forall|i: int, j: int| 0 <= i < j < days@.len() implies days@[i].ordinal()
                    < days@[j].ordinal() by {
                    if i < p && j > p {
                        assert(days@[i] == before[i]);
                        assert(days@[j] == before[j - 1]);
                    } else if j == p {
                        assert(days@[i] == before[i]);
                    } else if i == p {
                        assert(days@[j] == before[j - 1]);
                        Date::lemma_ordinal_decides(before[p as int], date);
                    } else if j < p {
                        assert(days@[i] == before[i] && days@[j] == before[j]);
                    } else {
                        assert(days@[i] == before[i - 1] && days@[j] == before[j - 1]);
                    }
                }
                assert forall|i: int| 0 <= i < days@.len() implies next.filter(
                    on_day(#[trigger] days@[i]),
                ).len() > 0 by {
                    if i < p {
                        assert(days@[i] == before[i]);
                        lemma_day_stays(entries@, k as int, days@[i]);
                    } else if i > p {
                        assert(days@[i] == before[i - 1]);
                        lemma_day_stays(entries@, k as int, days@[i]);
                    }
                }
                assert forall|j: int| 0 <= j < next.len() implies days@.contains(
                    #[trigger] next[j].date,
                ) by {
                    if j < k {
                        assert(next[j] == seen[j]);
                        assert(before.contains(seen[j].date));
                        let w = choose|w: int| 0 <= w < before.len() && before[w] == seen[j].date;
                        if w < p {
                            assert(days@[w] == before[w]);
                        } else {
                            assert(days@[w + 1] == before[w]);
                        }
                    }
                }
            }
        }
        k += 1;
    }
    assert(entries@.take(entries.len() as int) =~= entries@);
    days
}

/// Groups the entries by day: days ascending, and within a day the entries
/// in the order in which they were given.
pub fn group_by_date(entries: &Vec<TimeEntry>) -> (groups: Vec<DayGroup>)
    ensures
        grouped_by_date(entries@, groups@),
{
    let days = distinct_dates(entries);
    let mut groups: Vec<DayGroup> = Vec::new();
    let mut i: usize = 0;
    while i < days.len()
        invariant
            i <= days.len(),
            groups.len() == i,
            group_days(groups@) == days@.take(i as int),
            forall|g: int| 0 <= g < groups.len() ==> is_day_of(entries@, #[trigger] groups[g]),
        decreases days.len() - i,
    {
        let date = days[i];
        let members = entries_on(entries, date);
        let total = minutes_total(&members);
        let ghost earlier = groups@;
        groups.push(DayGroup { date, total, members });
        proof {
            assert forall|g: int| 0 <= g < groups.len() implies group_days(groups@)[g]
                == days@.take(i + 1)[g] by {
                if g < i {
                    assert(groups[g] == earlier[g]);
                    assert(group_days(earlier)[g] == earlier[g].date);
                    assert(days@.take(i as int)[g] == days@[g]);
                }
            }
            assert(group_days(groups@) =~= days@.take(i + 1));
            assert forall|g: int| 0 <= g < groups.len() implies is_day_of(
                entries@,
                #[trigger] groups[g],
            ) by {
                if g < i {
                    assert(groups[g] == earlier[g]);
                }
            }
        }
        i += 1;
    }
    assert(days@.take(days.len() as int) =~= days@);
    groups
}

} // verus!
