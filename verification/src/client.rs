//! The three queries of an account, and a client that keeps fresh answers.

use vstd::prelude::*;
use crate::cache::{
    kept_after_fetch, lookup, served, serve, settle, slot_after_fetch, slot_view, CacheEntry, Kept,
    SpanCache,
};
use crate::model::{ClientError, Config, DateSpan, Project, Service, TimeEntry};

verus! {

/// What can be asked of an account. Nothing is promised of an answer: it is
/// whatever the service said.
pub trait Client {
    fn get_time_entries(&mut self, span: DateSpan) -> Result<Vec<TimeEntry>, ClientError>;

    fn get_projects(&mut self) -> Result<Vec<Project>, ClientError>;

    fn get_services(&mut self) -> Result<Vec<Service>, ClientError>;
}

/// Asks `client` for the time entries of `span`, unless the span ends before
/// it starts: then the client is not asked at all.
pub fn fetch_time_entries<C: Client>(client: &mut C, span: DateSpan) -> (answer: Result<
    Vec<TimeEntry>,
    ClientError,
>)
    ensures
        !span.valid() ==> answer == Err::<Vec<TimeEntry>, ClientError>(
            ClientError::InvalidArgument,
        ) && *final(client) == *old(client),
{
    if !span.is_valid() {
        return Err(ClientError::InvalidArgument);
    }
    client.get_time_entries(span)
}

/// Calls std's `SystemTime::now` and `duration_since` the Unix epoch.
/// Nothing is claimed of the seconds that come back.
#[verifier::external_body]
fn clock_seconds() -> u64 {
    match std::time::SystemTime::now().duration_since(std::time::UNIX_EPOCH) {
        Ok(elapsed) => elapsed.as_secs(),
        Err(_) => 0,
    }
}

/// A client that keeps what `inner` answered and serves it again while it is
/// younger than `ttl` seconds. Failures are never kept.
pub struct CachedClient<C: Client> {
    pub inner: C,
    pub ttl: u64,
    pub entries: SpanCache,
    pub projects: Option<CacheEntry<Project>>,
    pub services: Option<CacheEntry<Service>>,
}

/// What a query of the time entries of `span` at the second `now` does to a
/// caching client and answers.
///
/// A span that ends before it starts is refused and nothing else happens.
/// A fresh kept answer is served and nothing else happens. Otherwise a
/// success takes the place kept for `span`, and a failure leaves what was
/// kept. The time to live and what is kept of projects and services stay.
pub open spec fn entries_step<C: Client>(
    before: CachedClient<C>,
    after: CachedClient<C>,
    span: DateSpan,
    now: u64,
    answer: Result<Vec<TimeEntry>, ClientError>,
) -> bool {
    &&& !span.valid() ==> answer == Err::<Vec<TimeEntry>, ClientError>(
        ClientError::InvalidArgument,
    ) && after == before
    &&& span.valid() ==> match lookup(before.entries@, span, before.ttl, now) {
        Some(value) => (answer matches Ok(v) && v@ == value) && after == before,
        None => after.entries@ == kept_after_fetch(before.entries@, span, now, answer),
    }
    &&& after.ttl == before.ttl
    &&& after.projects == before.projects
    &&& after.services == before.services
}

/// What a query of the projects at the second `now` does to a caching client
/// and answers: a fresh kept answer is served and nothing else happens; else
/// a success takes the place kept for projects, and a failure leaves it.
pub open spec fn projects_step<C: Client>(
    before: CachedClient<C>,
    after: CachedClient<C>,
    now: u64,
    answer: Result<Vec<Project>, ClientError>,
) -> bool {
    &&& match served(slot_view(before.projects), before.ttl, now) {
        Some(value) => (answer matches Ok(v) && v@ == value) && after == before,
        None => slot_view(after.projects) == slot_after_fetch(
            slot_view(before.projects),
            now,
            answer,
        ),
    }
    &&& after.ttl == before.ttl
    &&& after.entries == before.entries
    &&& after.services == before.services
}

/// What a query of the services at the second `now` does to a caching client
/// and answers: a fresh kept answer is served and nothing else happens; else
/// a success takes the place kept for services, and a failure leaves it.
pub open spec fn services_step<C: Client>(
    before: CachedClient<C>,
    after: CachedClient<C>,
    now: u64,
    answer: Result<Vec<Service>, ClientError>,
) -> bool {
    &&& match served(slot_view(before.services), before.ttl, now) {
        Some(value) => (answer matches Ok(v) && v@ == value) && after == before,
        None => slot_view(after.services) == slot_after_fetch(
            slot_view(before.services),
            now,
            answer,
        ),
    }
    &&& after.ttl == before.ttl
    &&& after.entries == before.entries
    &&& after.projects == before.projects
}

impl<C: Client> CachedClient<C> {
    /// A client around `inner` that has kept nothing yet.
    pub fn new(inner: C, ttl: u64) -> (client: Self)
        ensures
            client.inner == inner,
            client.ttl == ttl,
            client.entries@ == Map::<DateSpan, Kept<TimeEntry>>::empty(),
            client.projects is None,
            client.services is None,
    {
        CachedClient { inner, ttl, entries: SpanCache::new(), projects: None, services: None }
    }

    /// Starts from what an earlier run kept for the time entries. What could
    /// not be restored is passed over: the client goes on with what it has.
    pub fn adopt(&mut self, kept: Result<SpanCache, ClientError>)
        ensures
            final(self).entries@ == (match kept {
                Ok(cache) => cache@,
                Err(_) => old(self).entries@,
            }),
            final(self).inner == old(self).inner,
            final(self).ttl == old(self).ttl,
            final(self).projects == old(self).projects,
            final(self).services == old(self).services,
    {
        match kept {
            Ok(cache) => {
                self.entries = cache;
            },
            Err(_) => {},
        }
    }

    /// The time entries of `span` at the second `now`.
    ///
    /// A span that ends before it starts is refused and nothing else happens.
    /// A fresh kept answer is served and nothing else happens: `inner` is not
    /// asked. Otherwise `inner` is asked once, its answer is returned as it
    /// came, and a success takes the place kept for `span`; a failure leaves
    /// what was kept.
    pub fn get_time_entries_at(&mut self, span: DateSpan, now: u64) -> (answer: Result<
        Vec<TimeEntry>,
        ClientError,
    >)
        ensures
            !span.valid() ==> answer == Err::<Vec<TimeEntry>, ClientError>(
                ClientError::InvalidArgument,
            ) && *final(self) == *old(self),
            span.valid() ==> match lookup(old(self).entries@, span, old(self).ttl, now) {
                Some(value) => (answer matches Ok(v) && v@ == value) && *final(self) == *old(self),
                None => final(self).entries@ == kept_after_fetch(
                    old(self).entries@,
                    span,
                    now,
                    answer,
                ),
            },
            final(self).ttl == old(self).ttl,
            final(self).projects == old(self).projects,
            final(self).services == old(self).services,
    {
        if !span.is_valid() {
            return Err(ClientError::InvalidArgument);
        }
        match self.entries.serve(span, self.ttl, now) {
            Some(value) => Ok(value),
            None => {
                let fetched = self.inner.get_time_entries(span);
                self.entries.settle(span, now, fetched)
            },
        }
    }

    /// The projects at the second `now`: the fresh kept answer without asking
    /// `inner`, else what `inner` answers, kept on success.
    pub fn get_projects_at(&mut self, now: u64) -> (answer: Result<Vec<Project>, ClientError>)
        ensures
            match served(slot_view(old(self).projects), old(self).ttl, now) {
                Some(value) => (answer matches Ok(v) && v@ == value) && *final(self) == *old(self),
                None => slot_view(final(self).projects) == slot_after_fetch(
                    slot_view(old(self).projects),
                    now,
                    answer,
                ),
            },
            final(self).ttl == old(self).ttl,
            final(self).entries == old(self).entries,
            final(self).services == old(self).services,
    {
        match serve(&self.projects, self.ttl, now) {
            Some(value) => Ok(value),
            None => {
                let fetched = self.inner.get_projects();
                settle(&mut self.projects, now, fetched)
            },
        }
    }

    /// The services at the second `now`: the fresh kept answer without asking
    /// `inner`, else what `inner` answers, kept on success.
    pub fn get_services_at(&mut self, now: u64) -> (answer: Result<Vec<Service>, ClientError>)
        ensures
            match served(slot_view(old(self).services), old(self).ttl, now) {
                Some(value) => (answer matches Ok(v) && v@ == value) && *final(self) == *old(self),
                None => slot_view(final(self).services) == slot_after_fetch(
                    slot_view(old(self).services),
                    now,
                    answer,
                ),
            },
            final(self).ttl == old(self).ttl,
            final(self).entries == old(self).entries,
            final(self).projects == old(self).projects,
    {
        match serve(&self.services, self.ttl, now) {
            Some(value) => Ok(value),
            None => {
                let fetched = self.inner.get_services();
                settle(&mut self.services, now, fetched)
            },
        }
    }
}

impl<C: Client> Client for CachedClient<C> {
    /// The time entries of `span` at the second that the clock shows.
    fn get_time_entries(&mut self, span: DateSpan) -> (answer: Result<Vec<TimeEntry>, ClientError>)
        ensures
            !span.valid() ==> answer == Err::<Vec<TimeEntry>, ClientError>(
                ClientError::InvalidArgument,
            ) && *final(self) == *old(self),
            final(self).ttl == old(self).ttl,
            final(self).projects == old(self).projects,
            final(self).services == old(self).services,
            exists|now: u64| entries_step(*old(self), *final(self), span, now, answer),
    {
        let now = clock_seconds();
        let answer = self.get_time_entries_at(span, now);
        assert(entries_step(*old(self), *self, span, now, answer));
        answer
    }

    /// The projects at the second that the clock shows.
    fn get_projects(&mut self) -> (answer: Result<Vec<Project>, ClientError>)
        ensures
            exists|now: u64| projects_step(*old(self), *final(self), now, answer),
    {
        let now = clock_seconds();
        let answer = self.get_projects_at(now);
        assert(projects_step(*old(self), *self, now, answer));
        answer
    }

    /// The services at the second that the clock shows.
    fn get_services(&mut self) -> (answer: Result<Vec<Service>, ClientError>)
        ensures
            exists|now: u64| services_step(*old(self), *final(self), now, answer),
    {
        let now = clock_seconds();
        let answer = self.get_services_at(now);
        assert(services_step(*old(self), *self, now, answer));
        answer
    }
}

/// The client that a configuration asks for: the plain one, or the plain one
/// behind a cache.
pub enum AppClient<C: Client> {
    Direct(C),
    Cached(CachedClient<C>),
}

impl<C: Client> Client for AppClient<C> {
    /// Hands the query to the client that is held. The plain client stays
    /// the plain one, whatever it answers; the caching client does what it
    /// does at the second that the clock shows.
    fn get_time_entries(&mut self, span: DateSpan) -> (answer: Result<Vec<TimeEntry>, ClientError>)
        ensures
            match *old(self) {
                AppClient::Direct(_) => *final(self) is Direct,
                AppClient::Cached(before) => *final(self) matches AppClient::Cached(after)
                    && exists|now: u64| entries_step(before, after, span, now, answer),
            },
    {
        match self {
            AppClient::Direct(client) => client.get_time_entries(span),
            AppClient::Cached(client) => client.get_time_entries(span),
        }
    }

    /// Hands the query to the client that is held, as for the time entries.
    fn get_projects(&mut self) -> (answer: Result<Vec<Project>, ClientError>)
        ensures
            match *old(self) {
                AppClient::Direct(_) => *final(self) is Direct,
                AppClient::Cached(before) => *final(self) matches AppClient::Cached(after)
                    && exists|now: u64| projects_step(before, after, now, answer),
            },
    {
        match self {
            AppClient::Direct(client) => client.get_projects(),
            AppClient::Cached(client) => client.get_projects(),
        }
    }

    /// Hands the query to the client that is held, as for the time entries.
    fn get_services(&mut self) -> (answer: Result<Vec<Service>, ClientError>)
        ensures
            match *old(self) {
                AppClient::Direct(_) => *final(self) is Direct,
                AppClient::Cached(before) => *final(self) matches AppClient::Cached(after)
                    && exists|now: u64| services_step(before, after, now, answer),
            },
    {
        match self {
            AppClient::Direct(client) => client.get_services(),
            AppClient::Cached(client) => client.get_services(),
        }
    }
}

impl Config {
    /// The seconds that this configuration keeps an answer.
    pub open spec fn ttl_seconds(self) -> int {
        self.cache_ttl_minutes * 60
    }

    /// The client of this configuration around `raw`: `raw` itself, or `raw`
    /// behind an empty cache that keeps answers for the configured minutes.
    pub fn client<C: Client>(&self, cached: bool, raw: C) -> (client: AppClient<C>)
        requires
            cached ==> self.ttl_seconds() <= u64::MAX,
        ensures
            !cached ==> client == AppClient::Direct(raw),
            cached ==> (client matches AppClient::Cached(c) && c.inner == raw && c.ttl
                == self.ttl_seconds() && c.entries@ == Map::<DateSpan, Kept<TimeEntry>>::empty()
                && c.projects is None && c.services is None),
    {
        if cached {
            AppClient::Cached(CachedClient::new(raw, self.cache_ttl_minutes * 60))
        } else {
            AppClient::Direct(raw)
        }
    }
}

} // verus!
