//! The crawl-pipeline engine, driven end to end on an in-memory store.

use cardcrawl::discovery::process_directory_page;
use cardcrawl::discovery::run_discovery;
use cardcrawl::discovery::DirectoryPage;
use cardcrawl::discovery::ParentEntry;
use cardcrawl::drain::drain_parent;
use cardcrawl::drain::FetchPlan;
use cardcrawl::driver::driver_step;
use cardcrawl::driver::DriverAction;
use cardcrawl::driver::DriverEvent;
use cardcrawl::driver::PipelineStage;
use cardcrawl::error::ExtractError;
use cardcrawl::error::FetchError;
use cardcrawl::lease::LeaseQueue;
use cardcrawl::store::DetailRecord;
use cardcrawl::store::FrontierStore;
use cardcrawl::sweep::run_page_sweep;
use cardcrawl::sweep::PageResult;

fn key(s: &str) -> String {
    s.to_string()
}

fn record(k: &str, parent: &str) -> DetailRecord {
    DetailRecord {
        key: key(k),
        parent_key: key(parent),
        name: format!("card {k}"),
        number: key("001"),
        rarity: key("R"),
        fetched_at: 42,
    }
}

#[test]
fn enqueue_is_idempotent() {
    let mut store = FrontierStore::new();
    let keys = vec![key("a"), key("b"), key("c")];
    store.enqueue(&key("p1"), &keys, 10);
    // mark two of them fetched, as a partial drain would
    assert!(store.complete(&key("a")));
    assert!(store.complete(&key("b")));
    assert!(store.get_item(&key("a")).unwrap().fetched);
    // the second enqueue resets every key to pending, once each
    store.enqueue(&key("p1"), &keys, 20);
    for k in ["a", "b", "c"] {
        let item = store.get_item(&key(k)).unwrap();
        assert!(!item.fetched);
        assert_eq!(item.parent_key, "p1");
        assert_eq!(item.inserted_at, 10);
    }
    // exactly one pending item per key: draining them all claims each once
    let mut seen = Vec::new();
    while let Some((k, _)) = store.claim_next() {
        assert!(!seen.contains(&k));
        seen.push(k.clone());
        store.complete(&k);
    }
    seen.sort();
    assert_eq!(seen, vec![key("a"), key("b"), key("c")]);
}

#[test]
fn lease_exclusivity_two_claimants() {
    let mut q = LeaseQueue::new();
    for u in ["u1", "u2", "u3", "u4"] {
        q.insert(&key(u));
    }
    // inserting an already queued row changes nothing
    q.insert(&key("u1"));
    assert_eq!(q.pending(), 4);
    // two claimants interleave: no claim ever returns a row the other holds
    let mut claimed = Vec::new();
    let a = q.claim().unwrap();
    let b = q.claim().unwrap();
    assert_ne!(a.url, b.url);
    claimed.push(a.url.clone());
    claimed.push(b.url.clone());
    assert!(q.done(a));
    let c = q.claim().unwrap();
    assert!(!claimed.contains(&c.url));
    claimed.push(c.url.clone());
    assert!(q.done(b));
    let d = q.claim().unwrap();
    assert!(!claimed.contains(&d.url));
    claimed.push(d.url.clone());
    assert!(q.claim().is_none());
    assert!(q.done(c));
    assert!(q.done(d));
    assert_eq!(q.pending(), 0);
    // the union of claimed rows is all four, with zero duplicates
    claimed.sort();
    assert_eq!(claimed, vec![key("u1"), key("u2"), key("u3"), key("u4")]);
}

#[test]
fn aborted_complete_leaves_row_claimable() {
    let mut q = LeaseQueue::new();
    q.insert(&key("only"));
    let lease = q.claim().unwrap();
    assert_eq!(lease.url, "only");
    // while the lease is held no other claimant can take the row
    assert!(q.claim().is_none());
    // `done` was invoked but its transaction aborted before commit
    assert!(q.abort(lease));
    // a later claim returns the very same row
    let again = q.claim().unwrap();
    assert_eq!(again.url, "only");
    assert!(q.done(again));
    assert!(q.claim().is_none());
}

#[test]
fn cursor_resume_refetches_failed_page_without_duplicates() {
    let mut store = FrontierStore::new();
    let pipeline = key("ws");
    assert_eq!(store.read_cursor(&pipeline), 1);
    // page 1 persists, page 2's fetch dies: the crash between persisting
    // and advancing leaves the cursor on page 2
    let plan = vec![
        PageResult::Page(vec![record("w1", "s"), record("w2", "s")]),
        PageResult::Failed(FetchError::Network),
        PageResult::Page(vec![record("w5", "s")]),
    ];
    let r = run_page_sweep(&mut store, &pipeline, &plan, 1);
    assert_eq!(r, Err(FetchError::Network));
    assert_eq!(store.read_cursor(&pipeline), 2);
    assert_eq!(store.detail_count(), 2);
    // the re-run resumes at exactly page 2; re-persisting page 2's rows
    // (now fetchable) produces no duplicate rows
    let plan2 = vec![
        PageResult::Page(vec![record("w1", "s"), record("w2", "s")]),
        PageResult::Page(vec![record("w3", "s"), record("w4", "s")]),
        PageResult::Page(vec![record("w5", "s")]),
    ];
    let r2 = run_page_sweep(&mut store, &pipeline, &plan2, 2);
    assert_eq!(r2, Ok(3));
    assert_eq!(store.read_cursor(&pipeline), 4);
    assert_eq!(store.detail_count(), 5);
    // running the identical command once more changes nothing
    let r3 = run_page_sweep(&mut store, &pipeline, &plan2, 3);
    assert_eq!(r3, Ok(3));
    assert_eq!(store.detail_count(), 5);
}

#[test]
fn cursor_never_moves_backwards() {
    let mut store = FrontierStore::new();
    let pipeline = key("p");
    store.advance_cursor(&pipeline, 7);
    assert_eq!(store.read_cursor(&pipeline), 7);
    store.advance_cursor(&pipeline, 3);
    assert_eq!(store.read_cursor(&pipeline), 7);
    store.advance_cursor(&pipeline, 8);
    assert_eq!(store.read_cursor(&pipeline), 8);
}

fn seed_parent(store: &mut FrontierStore, parent: &str, items: &[&str]) {
    store.upsert_parent(&key(parent), &key("a set"), &key("a series"), 1);
    let keys: Vec<String> = items.iter().map(|s| s.to_string()).collect();
    store.enqueue(&key(parent), &keys, 1);
}

#[test]
fn failed_item_keeps_parent_unsynced_until_clean_drain() {
    let mut store = FrontierStore::new();
    seed_parent(&mut store, "pX", &["i1", "i2", "i3"]);
    // one of the three items fails during the drain
    let mut plan = FetchPlan::new();
    plan.succeed(record("i1", "pX"));
    plan.fail_fetch(&key("i2"), FetchError::Timeout);
    plan.succeed(record("i3", "pX"));
    let t = drain_parent(&mut store, &key("pX"), &plan, 2);
    assert_eq!((t.succeeded, t.failed), (2, 1));
    assert!(!store.get_parent(&key("pX")).unwrap().is_synced);
    assert!(!store.get_item(&key("i2")).unwrap().fetched);
    // a later zero-failure drain of the remainder syncs the parent
    let mut plan2 = FetchPlan::new();
    plan2.succeed(record("i2", "pX"));
    let t2 = drain_parent(&mut store, &key("pX"), &plan2, 3);
    assert_eq!((t2.succeeded, t2.failed), (1, 0));
    assert!(store.get_parent(&key("pX")).unwrap().is_synced);
    // an explicit resync request unsyncs without touching any fetched flag
    assert!(store.mark_unsynced(&key("pX"), 4));
    assert!(!store.get_parent(&key("pX")).unwrap().is_synced);
    for k in ["i1", "i2", "i3"] {
        assert!(store.get_item(&key(k)).unwrap().fetched);
    }
}

#[test]
fn malformed_entry_is_skipped_not_fatal() {
    let mut store = FrontierStore::new();
    let mut entries: Vec<Result<ParentEntry, ExtractError>> = Vec::new();
    for i in 0..10 {
        if i == 4 {
            entries.push(Err(ExtractError::Malformed));
        } else {
            entries.push(Ok(ParentEntry {
                key: format!("set{i}"),
                name: format!("Set {i}"),
                series: key("series"),
                children: vec![format!("set{i}-c1")],
            }));
        }
    }
    let page = DirectoryPage { entries, next: None };
    let t = process_directory_page(&mut store, &page, 9);
    assert_eq!((t.succeeded, t.failed), (9, 1));
    for i in 0..10 {
        let present = store.get_parent(&format!("set{i}")).is_some();
        assert_eq!(present, i != 4);
    }
}

#[test]
fn discovery_fetch_failure_ends_the_run() {
    let mut store = FrontierStore::new();
    let ok_page = DirectoryPage {
        entries: vec![Ok(ParentEntry {
            key: key("s1"),
            name: key("One"),
            series: key("ser"),
            children: vec![],
        })],
        next: Some(key("/page/2")),
    };
    let pages = vec![Ok(ok_page), Err(FetchError::HttpStatus(503))];
    let r = run_discovery(&mut store, &pages, 5);
    assert_eq!(r, Err(FetchError::HttpStatus(503)));
    // the page before the failure still counted
    assert!(store.get_parent(&key("s1")).is_some());
}

#[test]
fn discovery_normalizes_titles() {
    let mut store = FrontierStore::new();
    let page = DirectoryPage {
        entries: vec![Ok(ParentEntry {
            key: key("sv5k"),
            name: key("  Wild &amp; Force  "),
            series: key("Scarlet"),
            children: vec![],
        })],
        next: None,
    };
    process_directory_page(&mut store, &page, 1);
    assert_eq!(store.get_parent(&key("sv5k")).unwrap().name, "Wild & Force");
}

#[test]
fn end_to_end_drain_retry_then_synced() {
    let mut store = FrontierStore::new();
    seed_parent(&mut store, "SV1", &["c1", "c2", "c3", "c4", "c5"]);
    // the fetcher succeeds for four items and times out on one
    let mut plan = FetchPlan::new();
    for k in ["c1", "c2", "c4", "c5"] {
        plan.succeed(record(k, "SV1"));
    }
    plan.fail_fetch(&key("c3"), FetchError::Timeout);
    let t = drain_parent(&mut store, &key("SV1"), &plan, 2);
    assert_eq!((t.succeeded, t.failed), (4, 1));
    assert_eq!(store.detail_count(), 4);
    assert!(!store.get_item(&key("c3")).unwrap().fetched);
    assert!(!store.get_parent(&key("SV1")).unwrap().is_synced);
    // re-drain with the fetch now succeeding
    let mut plan2 = FetchPlan::new();
    plan2.succeed(record("c3", "SV1"));
    let t2 = drain_parent(&mut store, &key("SV1"), &plan2, 3);
    assert_eq!((t2.succeeded, t2.failed), (1, 0));
    assert_eq!(store.detail_count(), 5);
    assert!(store.get_parent(&key("SV1")).unwrap().is_synced);
    // the synced parent no longer shows up in the unsynced sweep scope
    let unsynced = store.list_by_state(false);
    assert!(unsynced.is_empty());
    assert_eq!(store.list_by_state(true), vec![key("SV1")]);
}

#[test]
fn drain_upserts_overwrite_without_duplicates() {
    let mut store = FrontierStore::new();
    seed_parent(&mut store, "p", &["k1"]);
    let mut plan = FetchPlan::new();
    plan.succeed(record("k1", "p"));
    drain_parent(&mut store, &key("p"), &plan, 2);
    assert_eq!(store.detail_count(), 1);
    // re-enqueue and re-fetch the same item: the row is overwritten
    store.enqueue(&key("p"), &vec![key("k1")], 3);
    let mut plan2 = FetchPlan::new();
    let mut rec = record("k1", "p");
    rec.name = key("renamed");
    plan2.succeed(rec);
    drain_parent(&mut store, &key("p"), &plan2, 4);
    assert_eq!(store.detail_count(), 1);
    assert_eq!(store.get_detail(&key("k1")).unwrap().name, "renamed");
}

#[test]
fn claim_scoped_to_parent() {
    let mut store = FrontierStore::new();
    seed_parent(&mut store, "pa", &["a1"]);
    seed_parent(&mut store, "pb", &["b1"]);
    let (k, item) = store.claim_next_for_parent(&key("pb")).unwrap();
    assert_eq!(k, "b1");
    assert_eq!(item.parent_key, "pb");
    store.complete(&k);
    assert!(store.claim_next_for_parent(&key("pb")).is_none());
    assert!(store.claim_next().is_some());
}

#[test]
fn empty_queue_claims_nothing() {
    let store = FrontierStore::new();
    assert!(store.claim_next().is_none());
    let mut q = LeaseQueue::new();
    assert!(q.claim().is_none());
}

#[test]
fn extraction_failure_leaves_item_pending() {
    let mut store = FrontierStore::new();
    seed_parent(&mut store, "p", &["x"]);
    let mut plan = FetchPlan::new();
    plan.fail_extract(&key("x"), ExtractError::FieldMissing);
    let t = drain_parent(&mut store, &key("p"), &plan, 2);
    assert_eq!((t.succeeded, t.failed), (0, 1));
    assert!(!store.get_item(&key("x")).unwrap().fetched);
    assert_eq!(store.detail_count(), 0);
}

#[test]
fn driver_sequences_the_stages() {
    let s0 = PipelineStage::Discovering;
    let (s1, a1) = driver_step(s0, DriverEvent::PageApplied { more: true });
    assert_eq!((s1, a1), (PipelineStage::Discovering, DriverAction::FetchDirectoryPage));
    let (s2, a2) = driver_step(s1, DriverEvent::PageApplied { more: false });
    assert_eq!((s2, a2), (PipelineStage::Draining, DriverAction::DrainQueue));
    let (s3, a3) = driver_step(s2, DriverEvent::DrainFinished { failures: 1 });
    assert_eq!((s3, a3), (PipelineStage::MarkingComplete, DriverAction::MarkCompletion { synced: false }));
    let (s4, a4) = driver_step(s3, DriverEvent::CompletionMarked);
    assert_eq!((s4, a4), (PipelineStage::Finished, DriverAction::Stop));
    // a discovery fetch failure ends the invocation
    let (s5, a5) = driver_step(PipelineStage::Discovering, DriverEvent::PageFetchFailed(FetchError::Timeout));
    assert_eq!((s5, a5), (PipelineStage::Finished, DriverAction::Stop));
    // a finished pipeline stays finished
    let (s6, a6) = driver_step(PipelineStage::Finished, DriverEvent::CompletionMarked);
    assert_eq!((s6, a6), (PipelineStage::Finished, DriverAction::Stop));
}

#[test]
fn global_drain_leaves_sync_flags_alone() {
    let mut store = FrontierStore::new();
    seed_parent(&mut store, "pa", &["a1", "a2"]);
    seed_parent(&mut store, "pb", &["b1"]);
    let mut plan = FetchPlan::new();
    plan.succeed(record("a1", "pa"));
    plan.succeed(record("b1", "pb"));
    plan.fail_fetch(&key("a2"), FetchError::Network);
    let t = cardcrawl::drain::drain_queue(&mut store, &plan, 2);
    assert_eq!((t.succeeded, t.failed), (2, 1));
    assert!(store.get_item(&key("a1")).unwrap().fetched);
    assert!(store.get_item(&key("b1")).unwrap().fetched);
    assert!(!store.get_item(&key("a2")).unwrap().fetched);
    // the global drain never touches the completion flags
    assert!(!store.get_parent(&key("pa")).unwrap().is_synced);
    assert!(!store.get_parent(&key("pb")).unwrap().is_synced);
}

#[test]
fn detail_listing_is_restartable_and_scoped() {
    let mut store = FrontierStore::new();
    store.upsert_detail(record("d1", "pa"));
    store.upsert_detail(record("d2", "pb"));
    store.upsert_detail(record("d3", "pa"));
    let mut all: Vec<String> = store.list_details().into_iter().map(|(k, _)| k).collect();
    all.sort();
    assert_eq!(all, vec![key("d1"), key("d2"), key("d3")]);
    // restartable by re-query
    assert_eq!(store.list_details().len(), 3);
    let mut pa: Vec<String> = store
        .list_details_of(&key("pa"))
        .into_iter()
        .map(|(k, _)| k)
        .collect();
    pa.sort();
    assert_eq!(pa, vec![key("d1"), key("d3")]);
    assert!(store.list_details_of(&key("nobody")).is_empty());
}
