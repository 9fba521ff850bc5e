use mongoscope::buckets::{BucketData, Buckets, BUCKET_COUNT};
use mongoscope::feed::{FeedMsg, FeedState, FEED_CAP, ROWS_AT_TOP, ROWS_LOCKED};
use mongoscope::filter::{FilterMsg, KindFilter};
use mongoscope::model::{Op, QueryEntry};
use mongoscope::types::{
    AppName, CollectionName, ConnId, DatabaseName, LatencyMs, QueryId, TimestampMs,
};

fn entry(id: u64, t: u64, latency: u32, op: Op) -> QueryEntry {
    QueryEntry {
        id: QueryId::try_new(id).unwrap(),
        t_ms: TimestampMs::new(t),
        latency_ms: LatencyMs::new(latency),
        op,
        db: DatabaseName::try_new("shop").unwrap(),
        coll: CollectionName::try_new("orders").unwrap(),
        app: AppName::try_new("api").unwrap(),
        plan: None,
        index: None,
        docs_examined: None,
        docs_returned: None,
        filter: None,
        pipeline: None,
        update: None,
        doc: None,
        warn: None,
        slow: latency >= 1000,
        is_system: false,
        conn_id: ConnId::new(id as u32),
        lsid: None,
        cluster_time: None,
        response_docs: vec![],
        rejected_plan_count: 0,
        suggestions: vec![],
    }
}

fn total(b: &BucketData) -> u32 {
    b.ok + b.warn + b.slow
}

#[test]
fn buckets_count_by_latency_class() {
    let mut b = Buckets::new(500);
    b.push(&entry(1, 0, 5, Op::Find), 0);
    b.push(&entry(2, 0, 150, Op::Find), 10);
    b.push(&entry(3, 0, 1500, Op::Find), 20);
    assert_eq!(b.head, 0);
    assert_eq!((b.data[0].ok, b.data[0].warn, b.data[0].slow), (1, 1, 1));
    assert_eq!(b.max_total(), 3);
}

#[test]
fn buckets_roll_and_clear_entered_slice() {
    let mut b = Buckets::new(500);
    b.push(&entry(1, 0, 5, Op::Find), 600);
    assert_eq!(b.head, 1);
    b.push(&entry(2, 0, 5, Op::Find), 500 * 81);
    assert_eq!(b.head, 1);
    assert_eq!(b.data[1].ok, 2);
    b.push(&entry(3, 0, 5, Op::Find), 1000);
    assert_eq!(b.head, 2);
    assert_eq!(b.data[2].ok, 1);
    let ordered = b.ordered();
    assert_eq!(ordered.len(), BUCKET_COUNT);
    assert_eq!(total(&ordered[BUCKET_COUNT - 1]), 1);
    assert_eq!(total(&ordered[BUCKET_COUNT - 2]), 2);
    assert_eq!(Buckets::new(500).max_total(), 1);
}

#[test]
fn push_entry_puts_newest_first_and_caps() {
    let mut f = FeedState::new();
    assert!(f.push_entry(entry(1, 10, 5, Op::Find)));
    assert!(f.push_entry(entry(2, 20, 5, Op::Find)));
    assert_eq!(f.entries[0].id.into_inner(), 2);
    assert_eq!(f.now_ms, 20);
    for i in 0..FEED_CAP as u64 {
        f.push_entry(entry(3 + i, 30, 5, Op::Find));
    }
    assert_eq!(f.entries.len(), FEED_CAP);
}

#[test]
fn paused_feed_drops_entries() {
    let mut f = FeedState::new();
    f.update(FeedMsg::TogglePause);
    assert!(!f.push_entry(entry(1, 10, 5, Op::Find)));
    assert!(f.entries.is_empty());
    f.update(FeedMsg::TogglePause);
    assert!(!f.paused);
    assert!(!f.scroll_locked);
}

#[test]
fn select_locks_scroll_and_clear_empties() {
    let mut f = FeedState::new();
    f.push_entry(entry(1, 10, 5, Op::Find));
    f.update(FeedMsg::SelectEntry(QueryId::try_new(1).unwrap()));
    assert!(f.scroll_locked);
    assert_eq!(f.selected, Some(QueryId::try_new(1).unwrap()));
    f.update(FeedMsg::ClearEntries);
    assert!(f.entries.is_empty());
    assert!(f.selected.is_none());
}

#[test]
fn scrolling_absorbs_programmatic_scrolls() {
    let mut f = FeedState::new();
    f.pending_scroll_to = 1;
    assert!(!f.update(FeedMsg::Scrolled { near_top: true, past_threshold: false }));
    assert_eq!(f.pending_scroll_to, 0);
    assert!(f.update(FeedMsg::Scrolled { near_top: false, past_threshold: true }));
    assert!(f.scroll_locked);
    assert!(f.update(FeedMsg::Scrolled { near_top: true, past_threshold: false }));
    assert!(!f.scroll_locked);
}

#[test]
fn visible_entries_follow_the_filter() {
    let mut f = FeedState::new();
    f.push_entry(entry(1, 10, 5, Op::Find));
    f.push_entry(entry(2, 20, 5, Op::Aggregate));
    f.update(FeedMsg::Filter(FilterMsg::KindSelected(KindFilter::Aggregate)));
    let v = f.visible_entries();
    assert_eq!(v.len(), 1);
    assert_eq!(v[0].id.into_inner(), 2);
}

#[test]
fn the_table_shows_more_rows_once_scrolled_down() {
    let mut f = FeedState::new();
    for i in 1..=600u64 {
        f.push_entry(entry(i, i, 5, Op::Find));
    }
    let rows = f.shown_entries();
    assert_eq!(rows.len(), ROWS_AT_TOP);
    assert_eq!(rows[0].id.into_inner(), 600);
    f.scroll_locked = true;
    assert_eq!(f.shown_entries().len(), ROWS_LOCKED);
    f.update(FeedMsg::Filter(FilterMsg::KindSelected(KindFilter::Aggregate)));
    assert!(f.shown_entries().is_empty());
}
