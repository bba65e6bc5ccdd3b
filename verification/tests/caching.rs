use acari::cache::{is_fresh, serve, settle, CacheEntry, SpanCache, SpanSlot, CACHE_VERSION};
use acari::client::{fetch_time_entries, AppClient, CachedClient, Client};
use acari::date::Date;
use acari::model::{ClientError, Config, DateSpan, Minutes, Project, Service, TimeEntry};

fn span(from_day: u32, to_day: u32) -> DateSpan {
    DateSpan {
        from: Date::from_ymd(2024, 1, from_day).unwrap(),
        to: Date::from_ymd(2024, 1, to_day).unwrap(),
    }
}

/// Answers each query with the number of the call, and fails while `down`.
struct Counting {
    calls: u32,
    down: bool,
}

impl Counting {
    fn answer(&self, span: DateSpan) -> Vec<TimeEntry> {
        vec![TimeEntry {
            date: span.from,
            minutes: Minutes(self.calls),
            customer_name: "customer".to_string(),
            project_name: "project".to_string(),
            service_name: "service".to_string(),
        }]
    }
}

impl Client for Counting {
    fn get_time_entries(&mut self, span: DateSpan) -> Result<Vec<TimeEntry>, ClientError> {
        self.calls += 1;
        if self.down {
            Err(ClientError::NetworkFailure)
        } else {
            Ok(self.answer(span))
        }
    }

    fn get_projects(&mut self) -> Result<Vec<Project>, ClientError> {
        self.calls += 1;
        if self.down {
            Err(ClientError::Unavailable)
        } else {
            Ok(vec![Project { customer_name: "c".to_string(), name: format!("p{}", self.calls) }])
        }
    }

    fn get_services(&mut self) -> Result<Vec<Service>, ClientError> {
        self.calls += 1;
        if self.down {
            Err(ClientError::ServerError)
        } else {
            Ok(vec![Service { name: format!("s{}", self.calls) }])
        }
    }
}

fn cached(ttl: u64) -> CachedClient<Counting> {
    CachedClient::new(Counting { calls: 0, down: false }, ttl)
}

#[test]
fn freshness_is_age_below_ttl() {
    assert!(is_fresh(100, 10, 100));
    assert!(is_fresh(100, 10, 109));
    assert!(!is_fresh(100, 10, 110));
    assert!(!is_fresh(100, 10, 99));
    assert!(!is_fresh(100, 0, 100));
    assert!(is_fresh(0, u64::MAX, u64::MAX - 1));
}

#[test]
fn second_query_within_ttl_is_not_fetched() {
    let mut client = cached(60);
    let first = client.get_time_entries_at(span(1, 2), 1000).unwrap();
    let second = client.get_time_entries_at(span(1, 2), 1059).unwrap();
    assert_eq!(client.inner.calls, 1);
    assert_eq!(first, second);
    assert_eq!(first[0].minutes, Minutes(1));
}

#[test]
fn stale_answer_is_fetched_once_more() {
    let mut client = cached(60);
    let first = client.get_time_entries_at(span(1, 2), 1000).unwrap();
    let second = client.get_time_entries_at(span(1, 2), 1060).unwrap();
    assert_eq!(client.inner.calls, 2);
    assert_eq!(first[0].minutes, Minutes(1));
    assert_eq!(second[0].minutes, Minutes(2));
    let third = client.get_time_entries_at(span(1, 2), 1100).unwrap();
    assert_eq!(client.inner.calls, 2);
    assert_eq!(third, second);
}

#[test]
fn spans_do_not_share_a_place() {
    let mut client = cached(60);
    let a = client.get_time_entries_at(span(1, 2), 1000).unwrap();
    let b = client.get_time_entries_at(span(1, 3), 1001).unwrap();
    assert_eq!(client.inner.calls, 2);
    let again = client.get_time_entries_at(span(1, 2), 1002).unwrap();
    assert_eq!(client.inner.calls, 2);
    assert_eq!(again, a);
    assert_ne!(a, b);
    assert_eq!(client.get_time_entries_at(span(1, 3), 1003).unwrap(), b);
    assert_eq!(client.inner.calls, 2);
}

#[test]
fn zero_ttl_always_fetches() {
    let mut client = cached(0);
    let mut plain = Counting { calls: 0, down: false };
    for now in [5u64, 5, 6, 7] {
        let through = client.get_time_entries_at(span(1, 2), now);
        let direct = plain.get_time_entries(span(1, 2));
        assert_eq!(through, direct);
    }
    assert_eq!(client.inner.calls, 4);
    assert_eq!(client.get_projects_at(9), plain.get_projects());
    assert_eq!(client.get_services_at(9), plain.get_services());
}

#[test]
fn inverted_span_is_refused_without_a_fetch() {
    let mut client = cached(60);
    assert_eq!(client.get_time_entries_at(span(2, 1), 1000), Err(ClientError::InvalidArgument));
    assert_eq!(client.get_time_entries(span(2, 1)), Err(ClientError::InvalidArgument));
    assert_eq!(client.inner.calls, 0);
    let mut plain = Counting { calls: 0, down: false };
    assert_eq!(fetch_time_entries(&mut plain, span(2, 1)), Err(ClientError::InvalidArgument));
    assert_eq!(plain.calls, 0);
    assert!(fetch_time_entries(&mut plain, span(1, 1)).is_ok());
    assert_eq!(plain.calls, 1);
}

#[test]
fn failure_is_handed_on_and_not_kept() {
    let mut client = cached(60);
    let first = client.get_time_entries_at(span(1, 2), 1000).unwrap();
    client.inner.down = true;
    assert_eq!(client.get_time_entries_at(span(1, 2), 1100), Err(ClientError::NetworkFailure));
    assert_eq!(client.get_time_entries_at(span(1, 3), 1100), Err(ClientError::NetworkFailure));
    assert_eq!(client.inner.calls, 3);
    // what was kept before the failure is still there, and still stale
    assert_eq!(client.get_time_entries_at(span(1, 2), 1059).unwrap(), first);
    assert_eq!(client.inner.calls, 3);
    client.inner.down = false;
    assert!(client.get_time_entries_at(span(1, 3), 1100).is_ok());
    assert_eq!(client.inner.calls, 4);
}

#[test]
fn projects_and_services_have_one_place_each() {
    let mut client = cached(10);
    let p1 = client.get_projects_at(100).unwrap();
    let s1 = client.get_services_at(100).unwrap();
    assert_eq!(client.inner.calls, 2);
    assert_eq!(client.get_projects_at(105).unwrap(), p1);
    assert_eq!(client.get_services_at(109).unwrap(), s1);
    assert_eq!(client.inner.calls, 2);
    let p2 = client.get_projects_at(110).unwrap();
    assert_eq!(client.inner.calls, 3);
    assert_ne!(p1, p2);
    assert_eq!(client.get_services_at(109).unwrap(), s1);
    client.inner.down = true;
    assert_eq!(client.get_services_at(200), Err(ClientError::ServerError));
    assert_eq!(client.get_projects_at(200), Err(ClientError::Unavailable));
    assert_eq!(client.get_projects_at(115).unwrap(), p2);
}

#[test]
fn clock_driven_queries_use_the_cache() {
    let mut client = cached(3600);
    let first = client.get_time_entries(span(1, 2)).unwrap();
    let second = client.get_time_entries(span(1, 2)).unwrap();
    assert_eq!(first, second);
    assert_eq!(client.inner.calls, 1);
    assert_eq!(client.get_projects().unwrap(), client.get_projects().unwrap());
    assert_eq!(client.get_services().unwrap(), client.get_services().unwrap());
    assert_eq!(client.inner.calls, 3);
}

#[test]
fn one_place_serves_and_settles() {
    let mut slot: Option<CacheEntry<Service>> = None;
    assert_eq!(serve(&slot, 10, 0), None);
    let value = vec![Service { name: "a".to_string() }];
    let fetched: Result<Vec<Service>, ClientError> = Ok(value.clone());
    assert_eq!(settle(&mut slot, 7, fetched.clone()), fetched);
    assert_eq!(slot, Some(CacheEntry { value: value.clone(), fetched_at: 7 }));
    assert_eq!(serve(&slot, 10, 16), Some(value.clone()));
    assert_eq!(serve(&slot, 10, 17), None);
    let failed: Result<Vec<Service>, ClientError> = Err(ClientError::AuthFailure);
    assert_eq!(settle(&mut slot, 20, failed.clone()), failed);
    assert_eq!(slot, Some(CacheEntry { value, fetched_at: 7 }));
}

#[test]
fn span_cache_replaces_what_it_kept() {
    let mut cache = SpanCache::new();
    assert_eq!(cache.serve(span(1, 2), 10, 0), None);
    let one = Counting { calls: 1, down: false }.answer(span(1, 2));
    let two = Counting { calls: 2, down: false }.answer(span(1, 2));
    let ok: Result<Vec<TimeEntry>, ClientError> = Ok(one.clone());
    assert_eq!(cache.settle(span(1, 2), 5, ok.clone()), ok);
    assert_eq!(cache.serve(span(1, 2), 10, 14), Some(one));
    assert_eq!(cache.serve(span(1, 3), 10, 14), None);
    let ok: Result<Vec<TimeEntry>, ClientError> = Ok(two.clone());
    assert_eq!(cache.settle(span(1, 2), 20, ok.clone()), ok);
    assert_eq!(cache.serve(span(1, 2), 10, 29), Some(two));
    assert_eq!(cache.serve(span(1, 2), 10, 30), None);
}

#[test]
fn configuration_picks_the_client() {
    let config = Config { domain: "d".to_string(), token: "t".to_string(), cache_ttl_minutes: 2 };
    match config.client(true, Counting { calls: 0, down: false }) {
        AppClient::Cached(client) => {
            assert_eq!(client.ttl, 120);
            assert_eq!(client.inner.calls, 0);
        }
        AppClient::Direct(_) => panic!("asked for a cached client"),
    }
    let mut direct = config.client(false, Counting { calls: 0, down: false });
    assert!(direct.get_time_entries(span(1, 2)).is_ok());
    assert!(direct.get_time_entries(span(1, 2)).is_ok());
    match direct {
        AppClient::Direct(client) => assert_eq!(client.calls, 2),
        AppClient::Cached(_) => panic!("asked for a plain client"),
    }
    let mut through = config.client(true, Counting { calls: 0, down: false });
    assert!(through.get_projects().is_ok());
    assert!(through.get_projects().is_ok());
    assert!(through.get_services().is_ok());
    match through {
        AppClient::Cached(client) => assert_eq!(client.inner.calls, 2),
        AppClient::Direct(_) => panic!("asked for a cached client"),
    }
}

fn written() -> Vec<SpanSlot> {
    let one = Counting { calls: 1, down: false }.answer(span(1, 2));
    let two = Counting { calls: 2, down: false }.answer(span(1, 3));
    let three = Counting { calls: 3, down: false }.answer(span(1, 2));
    vec![
        SpanSlot { span: span(1, 2), entry: CacheEntry { value: one, fetched_at: 100 } },
        SpanSlot { span: span(1, 3), entry: CacheEntry { value: two, fetched_at: 110 } },
        SpanSlot { span: span(1, 2), entry: CacheEntry { value: three, fetched_at: 120 } },
    ]
}

#[test]
fn another_layout_is_corrupt() {
    assert!(matches!(
        SpanCache::restore(CACHE_VERSION + 1, &written()),
        Err(ClientError::CacheCorrupt)
    ));
    assert!(matches!(SpanCache::restore(0, &vec![]), Err(ClientError::CacheCorrupt)));
    assert!(SpanCache::restore(CACHE_VERSION, &vec![]).is_ok());
}

#[test]
fn restored_cache_serves_what_was_written_last() {
    let slots = written();
    let cache = SpanCache::restore(CACHE_VERSION, &slots).unwrap();
    assert_eq!(cache.serve(span(1, 2), 60, 130), Some(slots[2].entry.value.clone()));
    assert_eq!(cache.serve(span(1, 3), 60, 130), Some(slots[1].entry.value.clone()));
    assert_eq!(cache.serve(span(1, 3), 60, 170), None);
    assert_eq!(cache.serve(span(1, 4), 60, 130), None);
}

#[test]
fn snapshot_restores_to_the_same_cache() {
    let cache = SpanCache::restore(CACHE_VERSION, &written()).unwrap();
    let slots = cache.snapshot();
    assert_eq!(slots.len(), 2);
    let again = SpanCache::restore(CACHE_VERSION, &slots).unwrap();
    for to_day in [2u32, 3, 4] {
        for now in [100u64, 130, 169, 170, 179, 180] {
            assert_eq!(again.serve(span(1, to_day), 60, now), cache.serve(span(1, to_day), 60, now));
        }
    }
    assert!(SpanCache::new().snapshot().is_empty());
}

#[test]
fn corrupt_store_counts_as_nothing_kept() {
    let mut client = cached(60);
    let first = client.get_time_entries_at(span(1, 2), 100).unwrap();
    client.adopt(SpanCache::restore(CACHE_VERSION + 7, &written()));
    assert_eq!(client.get_time_entries_at(span(1, 2), 101).unwrap(), first);
    assert_eq!(client.inner.calls, 1);
    client.adopt(SpanCache::restore(CACHE_VERSION, &written()));
    let kept = client.get_time_entries_at(span(1, 3), 111).unwrap();
    assert_eq!(client.inner.calls, 1);
    assert_eq!(kept, written()[1].entry.value);
}

#[test]
fn configured_cache_refuses_an_inverted_span() {
    let config = Config { domain: "d".to_string(), token: "t".to_string(), cache_ttl_minutes: 1 };
    let mut through = config.client(true, Counting { calls: 0, down: false });
    assert_eq!(through.get_time_entries(span(2, 1)), Err(ClientError::InvalidArgument));
    let first = through.get_services().unwrap();
    assert_eq!(through.get_services().unwrap(), first);
    match through {
        AppClient::Cached(client) => {
            assert_eq!(client.inner.calls, 1);
            assert_eq!(client.ttl, 60);
            assert_eq!(client.services.map(|kept| kept.value), Some(first));
        }
        AppClient::Direct(_) => panic!("asked for a cached client"),
    }
}
