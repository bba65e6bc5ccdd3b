//! What was fetched, kept with the time of the fetch, and the rule that says
//! when a kept answer may still be served.

use vstd::prelude::*;
use crate::model::{duplicate_all, ClientError, DateSpan, Record, TimeEntry};

verus! {

/// An answer and the second at which it was fetched.
#[derive(Clone, Debug, PartialEq, Eq)]
pub struct CacheEntry<T> {
    pub value: Vec<T>,
    pub fetched_at: u64,
}

/// A kept answer as a plain value.
pub ghost struct Kept<T> {
    pub value: Seq<T>,
    pub fetched_at: u64,
}

impl<T> View for CacheEntry<T> {
    type V = Kept<T>;

    open spec fn view(&self) -> Kept<T> {
        Kept { value: self.value@, fetched_at: self.fetched_at }
    }
}

/// An answer is fresh while it is younger than `ttl`. One dated after `now`
/// is not fresh.
pub open spec fn fresh(fetched_at: u64, ttl: u64, now: u64) -> bool {
    fetched_at <= now && now - fetched_at < ttl
}

/// What may be served at `now` from what is kept: the kept answer while it is
/// fresh, else nothing.
pub open spec fn served<T>(kept: Option<Kept<T>>, ttl: u64, now: u64) -> Option<Seq<T>> {
    match kept {
        Some(k) => if fresh(k.fetched_at, ttl, now) {
            Some(k.value)
        } else {
            None
        },
        None => None,
    }
}

/// What is kept under `key`, if anything.
pub open spec fn kept_for<K, T>(kept: Map<K, Kept<T>>, key: K) -> Option<Kept<T>> {
    if kept.dom().contains(key) {
        Some(kept[key])
    } else {
        None
    }
}

/// What may be served at `now` for `key`.
pub open spec fn lookup<K, T>(kept: Map<K, Kept<T>>, key: K, ttl: u64, now: u64) -> Option<
    Seq<T>,
> {
    served(kept_for(kept, key), ttl, now)
}

/// What is kept once `value`, fetched at `now`, has taken the place under `key`.
pub open spec fn kept_after<K, T>(kept: Map<K, Kept<T>>, key: K, value: Seq<T>, now: u64) -> Map<
    K,
    Kept<T>,
> {
    kept.insert(key, Kept { value, fetched_at: now })
}

/// What is kept after a fetch for `key` at `now`: a success takes the place
/// under `key`, a failure changes nothing.
pub open spec fn kept_after_fetch<K, T, E>(
    kept: Map<K, Kept<T>>,
    key: K,
    now: u64,
    fetched: Result<Vec<T>, E>,
) -> Map<K, Kept<T>> {
    match fetched {
        Ok(value) => kept_after(kept, key, value@, now),
        Err(_) => kept,
    }
}

/// The same for an operation without parameters, which has one place.
pub open spec fn slot_after_fetch<T, E>(
    kept: Option<Kept<T>>,
    now: u64,
    fetched: Result<Vec<T>, E>,
) -> Option<Kept<T>> {
    match fetched {
        Ok(value) => Some(Kept { value: value@, fetched_at: now }),
        Err(_) => kept,
    }
}

/// The view of one place.
pub open spec fn slot_view<T>(slot: Option<CacheEntry<T>>) -> Option<Kept<T>> {
    match slot {
        Some(entry) => Some(entry@),
        None => None,
    }
}

/// Whether an answer fetched at `fetched_at` is fresh at `now`.
pub fn is_fresh(fetched_at: u64, ttl: u64, now: u64) -> (b: bool)
    ensures
        b == fresh(fetched_at, ttl, now),
{
    fetched_at <= now && now - fetched_at < ttl
}

/// A copy of the kept answer, if it may be served at `now`.
pub fn serve<T: Record>(slot: &Option<CacheEntry<T>>, ttl: u64, now: u64) -> (hit: Option<Vec<T>>)
    ensures
        match hit {
            Some(value) => served(slot_view(*slot), ttl, now) == Some(value@),
            None => served(slot_view(*slot), ttl, now) is None,
        },
{
    match slot {
        Some(entry) => {
            if is_fresh(entry.fetched_at, ttl, now) {
                Some(duplicate_all(&entry.value))
            } else {
                None
            }
        },
        None => None,
    }
}

/// Takes the outcome of a fetch into the place and hands it on unchanged.
pub fn settle<T: Record, E>(
    slot: &mut Option<CacheEntry<T>>,
    now: u64,
    fetched: Result<Vec<T>, E>,
) -> (answer: Result<Vec<T>, E>)
    ensures
        answer == fetched,
        slot_view(*final(slot)) == slot_after_fetch(slot_view(*old(slot)), now, fetched),
{
    match &fetched {
        Ok(value) => {
            *slot = Some(CacheEntry { value: duplicate_all(value), fetched_at: now });
        },
        Err(_) => {},
    }
    fetched
}

/// One span with what is kept for it.
pub struct SpanSlot {
    pub span: DateSpan,
    pub entry: CacheEntry<TimeEntry>,
}

/// The layout in which kept answers are written down for a later run.
pub const CACHE_VERSION: u32 = 1;

/// What a written list of places keeps: for each span what its last place
/// holds.
pub open spec fn stored_map(slots: Seq<SpanSlot>) -> Map<DateSpan, Kept<TimeEntry>>
    decreases slots.len(),
{
    if slots.len() == 0 {
        Map::empty()
    } else {
        stored_map(slots.drop_last()).insert(slots.last().span, slots.last().entry@)
    }
}

/// Some place of the list is for `span`.
pub open spec fn holds_span(slots: Seq<SpanSlot>, span: DateSpan) -> bool {
    exists|i: int| 0 <= i < slots.len() && slots[i].span == span
}

/// A list with one place for each span keeps what its places hold.
proof fn lemma_stored_of_distinct(slots: Seq<SpanSlot>)
    requires
        forall|i: int, j: int| 0 <= i < j < slots.len() ==> slots[i].span != slots[j].span,
    ensures
        forall|span: DateSpan|
            holds_span(slots, span) <==> #[trigger] stored_map(slots).dom().contains(span),
        forall|i: int|
            0 <= i < slots.len() ==> stored_map(slots)[(#[trigger] slots[i]).span]
                == slots[i].entry@,
    decreases slots.len(),
{
    if slots.len() > 0 {
        let rest = slots.drop_last();
        let last = slots.last();
        lemma_stored_of_distinct(rest);
        assert forall|span: DateSpan|
            holds_span(slots, span) <==> #[trigger] stored_map(slots).dom().contains(span) by {
            let in_rest = stored_map(rest).dom().contains(span);
            assert(in_rest <==> holds_span(rest, span));
            assert(stored_map(slots) == stored_map(rest).insert(last.span, last.entry@));
            assert(stored_map(slots).dom().contains(span) <==> (in_rest || span == last.span));
            if holds_span(rest, span) {
                let i = choose|i: int| 0 <= i < rest.len() && rest[i].span == span;
                assert(slots[i].span == span);
                assert(holds_span(slots, span));
            }
            if span == last.span {
                assert(slots[slots.len() - 1].span == span);
                assert(holds_span(slots, span));
            }
            if holds_span(slots, span) && span != last.span {
                let i = choose|i: int| 0 <= i < slots.len() && slots[i].span == span;
                assert(rest[i].span == span);
                assert(holds_span(rest, span));
            }
        }
        assert forall|i: int| 0 <= i < slots.len() implies stored_map(slots)[(
        #[trigger] slots[i]).span] == slots[i].entry@ by {
            if i < slots.len() - 1 {
                assert(rest[i] == slots[i]);
                assert(slots[i].span != slots[slots.len() - 1].span);
            }
        }
    } else {
        assert forall|span: DateSpan|
            holds_span(slots, span) <==> #[trigger] stored_map(slots).dom().contains(span) by {}
    }
}

/// The answers kept for the queries of time entries, one place for each span.
pub struct SpanCache {
    slots: Vec<SpanSlot>,
}

impl View for SpanCache {
    type V = Map<DateSpan, Kept<TimeEntry>>;

    closed spec fn view(&self) -> Map<DateSpan, Kept<TimeEntry>> {
        Map::new(|span: DateSpan| self.has(span), |span: DateSpan| self.slots@[self.place(span)].entry@)
    }
}

impl SpanCache {
    #[verifier::type_invariant]
    spec fn one_place_each(self) -> bool {
        forall|i: int, j: int|
            0 <= i < j < self.slots@.len() ==> self.slots@[i].span != self.slots@[j].span
    }

    spec fn has(self, span: DateSpan) -> bool {
        exists|i: int| 0 <= i < self.slots@.len() && self.slots@[i].span == span
    }

    spec fn place(self, span: DateSpan) -> int {
        choose|i: int| 0 <= i < self.slots@.len() && self.slots@[i].span == span
    }

    /// A cache that keeps nothing.
    pub fn new() -> (cache: SpanCache)
        ensures
            cache@ == Map::<DateSpan, Kept<TimeEntry>>::empty(),
    {
        let cache = SpanCache { slots: Vec::new() };
        assert(cache@ =~= Map::<DateSpan, Kept<TimeEntry>>::empty());
        cache
    }

    fn find(&self, span: DateSpan) -> (at: Option<usize>)
        ensures
            match at {
                Some(i) => i < self.slots@.len() && self.slots@[i as int].span == span
                    && self.has(span) && self.place(span) == i,
                None => !self.has(span),
            },
    {
        proof {
            use_type_invariant(self);
        }
        let mut i: usize = 0;
        while i < self.slots.len()
            invariant
                i <= self.slots@.len(),
                self.one_place_each(),
                forall|j: int| 0 <= j < i ==> self.slots@[j].span != span,
            decreases self.slots.len() - i,
        {
            if self.slots[i].span.same(&span) {
                proof {
                    assert(self.slots@[i as int].span == span);
                    assert(self.has(span));
                    let w = self.place(span);
                    assert(w == i) by {
                        if w < i {
                            assert(self.slots@[w].span != self.slots@[i as int].span);
                        } else if w > i {
                            assert(self.slots@[i as int].span != self.slots@[w].span);
                        }
                    }
                }
                return Some(i);
            }
            i += 1;
        }
        None
    }

    /// Takes over what an earlier run wrote down. What was written in
    /// another layout is not read: it is corrupt to this one.
    pub fn restore(version: u32, slots: &Vec<SpanSlot>) -> (restored: Result<SpanCache, ClientError>)
        ensures
            version != CACHE_VERSION ==> (restored matches Err(e) && e
                == ClientError::CacheCorrupt),
            version == CACHE_VERSION ==> (restored matches Ok(cache) && cache@ == stored_map(
                slots@,
            )),
    {
        if version != CACHE_VERSION {
            return Err(ClientError::CacheCorrupt);
        }
        let mut cache = SpanCache::new();
        let mut i: usize = 0;
        while i < slots.len()
            invariant
                i <= slots.len(),
                cache@ == stored_map(slots@.take(i as int)),
            decreases slots.len() - i,
        {
            let slot = &slots[i];
            let fetched: Result<Vec<TimeEntry>, ClientError> = Ok(duplicate_all(&slot.entry.value));
            let _ = cache.settle(slot.span, slot.entry.fetched_at, fetched);
            proof {
                assert(slots@.take(i + 1).drop_last() =~= slots@.take(i as int));
                assert(slots@.take(i + 1).last() == slots@[i as int]);
            }
            i += 1;
        }
        assert(slots@.take(slots.len() as int) =~= slots@);
        Ok(cache)
    }

    /// What is kept, as a list that can be written down and restored.
    pub fn snapshot(&self) -> (slots: Vec<SpanSlot>)
        ensures
            stored_map(slots@) == self@,
    {
        proof {
            use_type_invariant(self);
        }
        let mut slots: Vec<SpanSlot> = Vec::new();
        let mut i: usize = 0;
        while i < self.slots.len()
            invariant
                i <= self.slots@.len(),
                slots@.len() == i,
                forall|j: int|
                    0 <= j < i ==> (#[trigger] slots@[j]).span == self.slots@[j].span
                        && slots@[j].entry@ == self.slots@[j].entry@,
            decreases self.slots.len() - i,
        {
            let slot = &self.slots[i];
            slots.push(
                SpanSlot {
                    span: slot.span,
                    entry: CacheEntry {
                        value: duplicate_all(&slot.entry.value),
                        fetched_at: slot.entry.fetched_at,
                    },
                },
            );
            i += 1;
        }
        proof {
            lemma_stored_of_distinct(slots@);
            assert forall|span: DateSpan| holds_span(slots@, span) <==> self.has(span) by {
                if holds_span(slots@, span) {
                    let w = choose|w: int| 0 <= w < slots@.len() && slots@[w].span == span;
                    assert(self.slots@[w].span == span);
                }
                if self.has(span) {
                    let w = self.place(span);
                    assert(slots@[w].span == span);
                }
            }
            assert forall|span: DateSpan| self.has(span) implies stored_map(slots@)[span]
                == self@[span] by {
                let w = self.place(span);
                assert(slots@[w].span == span);
            }
            assert(stored_map(slots@) =~= self@);
        }
        slots
    }

    /// A copy of what is kept for `span`, if it may be served at `now`.
    pub fn serve(&self, span: DateSpan, ttl: u64, now: u64) -> (hit: Option<Vec<TimeEntry>>)
        ensures
            match hit {
                Some(value) => lookup(self@, span, ttl, now) == Some(value@),
                None => lookup(self@, span, ttl, now) is None,
            },
    {
        match self.find(span) {
            Some(i) => {
                let entry = &self.slots[i].entry;
                if is_fresh(entry.fetched_at, ttl, now) {
                    Some(duplicate_all(&entry.value))
                } else {
                    None
                }
            },
            None => None,
        }
    }

    /// Takes the outcome of a fetch for `span` into the cache and hands it on
    /// unchanged. What is kept for other spans stays.
    pub fn settle<E>(&mut self, span: DateSpan, now: u64, fetched: Result<Vec<TimeEntry>, E>) -> (answer:
        Result<Vec<TimeEntry>, E>)
        ensures
            answer == fetched,
            final(self)@ == kept_after_fetch(old(self)@, span, now, fetched),
    {
        proof {
            use_type_invariant(&*self);
        }
        match &fetched {
            Ok(value) => {
                let entry = CacheEntry { value: duplicate_all(value), fetched_at: now };
                let ghost before = *self;
                let at = self.find(span);
                let mut taken = SpanCache { slots: Vec::new() };
                std::mem::swap(self, &mut taken);
                let mut slots = taken.slots;
                match at {
                    Some(i) => {
                        slots.set(i, SpanSlot { span, entry });
                        *self = SpanCache { slots };
                        proof {
                            assert forall|s: DateSpan| before.has(s) <==> self.has(s) by {
                                if before.has(s) {
                                    let w = before.place(s);
                                    assert(self.slots@[w].span == s);
                                }
                                if self.has(s) {
                                    let w = self.place(s);
                                    assert(before.slots@[w].span == s);
                                }
                            }
                            assert forall|s: DateSpan| self.has(s) implies #[trigger] self.place(s)
                                == before.place(s) by {
                                let w = self.place(s);
                                assert(before.slots@[w].span == s);
                            }
                        }
                    },
                    None => {
                        slots.push(SpanSlot { span, entry });
                        *self = SpanCache { slots };
                        proof {
                            let n = before.slots@.len() as int;
                            assert(self.slots@[n].span == span);
                            assert forall|s: DateSpan| self.has(s) <==> (before.has(s) || s == span) by {
                                if before.has(s) {
                                    let w = before.place(s);
                                    assert(self.slots@[w].span == s);
                                }
                                if self.has(s) && s != span {
                                    let w = self.place(s);
                                    assert(before.slots@[w].span == s);
                                }
                            }
                            assert forall|s: DateSpan| before.has(s) implies #[trigger] self.place(s)
                                == before.place(s) by {
                                let w = before.place(s);
                                assert(self.slots@[w].span == s);
                            }
                        }
                    },
                }
                assert(self@ =~= kept_after(before@, span, value@, now));
            },
            Err(_) => {},
        }
        fetched
    }
}

/// Within the time to live a second query is served from what the first one
/// fetched: it needs no fetch.
pub proof fn law_served_while_fresh<K, T>(
    kept: Map<K, Kept<T>>,
    key: K,
    value: Seq<T>,
    ttl: u64,
    fetched_at: u64,
    now: u64,
)
    requires
        fetched_at <= now,
        now - fetched_at < ttl,
    ensures
        lookup(kept_after(kept, key, value, fetched_at), key, ttl, now) == Some(value),
{
}

/// Once the time to live has passed nothing is served, and what the next
/// fetch brings is what is then kept and served.
pub proof fn law_refetched_when_stale<K, T>(
    kept: Map<K, Kept<T>>,
    key: K,
    value: Seq<T>,
    newer: Seq<T>,
    ttl: u64,
    fetched_at: u64,
    now: u64,
)
    requires
        fetched_at <= now,
        now - fetched_at >= ttl,
    ensures
        lookup(kept_after(kept, key, value, fetched_at), key, ttl, now) is None,
        kept_for(kept_after(kept_after(kept, key, value, fetched_at), key, newer, now), key)
            == Some(Kept { value: newer, fetched_at: now }),
        ttl > 0 ==> lookup(
            kept_after(kept_after(kept, key, value, fetched_at), key, newer, now),
            key,
            ttl,
            now,
        ) == Some(newer),
{
}

/// A fetch for one key leaves what is kept for every other key as it was.
pub proof fn law_keys_are_independent<K, T>(
    kept: Map<K, Kept<T>>,
    key: K,
    other: K,
    value: Seq<T>,
    fetched_at: u64,
    ttl: u64,
    now: u64,
)
    requires
        key != other,
    ensures
        kept_for(kept_after(kept, other, value, fetched_at), key) == kept_for(kept, key),
        lookup(kept_after(kept, other, value, fetched_at), key, ttl, now) == lookup(
            kept,
            key,
            ttl,
            now,
        ),
{
}

/// With a time to live of zero nothing is ever served from the cache: every
/// query is fetched.
pub proof fn law_zero_ttl_serves_nothing<K, T>(kept: Map<K, Kept<T>>, key: K, now: u64)
    ensures
        lookup(kept, key, 0, now) is None,
{
}

} // verus!
