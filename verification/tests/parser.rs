use mongoscope::filter::{Filter, Preset};
use mongoscope::model::{Op, Plan, QueryEntry};
use mongoscope::types::{
    AppName, CollectionName, ConnId, DatabaseName, LatencyMs, QueryId, TimestampMs,
};

fn entry(db: &str, coll: &str) -> QueryEntry {
    QueryEntry {
        id: QueryId::try_new(1).unwrap(),
        t_ms: TimestampMs::new(0),
        latency_ms: LatencyMs::new(1),
        op: Op::Find,
        db: DatabaseName::try_new(db).unwrap(),
        coll: CollectionName::try_new(coll).unwrap(),
        app: AppName::try_new("testapp").unwrap(),
        plan: None,
        index: None,
        docs_examined: None,
        docs_returned: None,
        filter: None,
        pipeline: None,
        update: None,
        doc: None,
        warn: None,
        slow: false,
        is_system: false,
        conn_id: ConnId::new(10001),
        lsid: None,
        cluster_time: None,
        response_docs: vec![],
        rejected_plan_count: 0,
        suggestions: vec![],
    }
}

fn slow_entry() -> QueryEntry {
    QueryEntry { slow: true, ..entry("shop", "orders") }
}

fn collscan_entry() -> QueryEntry {
    QueryEntry { plan: Some(Plan::CollScan), ..entry("shop", "orders") }
}

#[test]
fn parse_db_token() {
    let f = Filter::parse("db:shop");
    assert_eq!(f.db, Some("shop".into()));
}

#[test]
fn parse_coll_token() {
    let f = Filter::parse("coll:orders");
    assert_eq!(f.coll, Some("orders".into()));
}

#[test]
fn parse_app_token() {
    let f = Filter::parse("app:api");
    assert_eq!(f.app, Some("api".into()));
}

#[test]
fn parse_slow_sets_preset() {
    let f = Filter::parse("slow");
    assert_eq!(f.preset, Some(Preset::SlowQueries));
}

#[test]
fn parse_collscan_sets_preset() {
    let f = Filter::parse("collscan");
    assert_eq!(f.preset, Some(Preset::CollScanOnly));
}

#[test]
fn parse_bare_text_goes_to_text_field() {
    let f = Filter::parse("foo bar");
    assert_eq!(f.text, Some("foo bar".into()));
}

#[test]
fn display_round_trips() {
    let mut f = Filter::default();
    f.db = Some("shop".into());
    f.coll = Some("orders".into());
    f.preset = Some(Preset::SlowQueries);
    assert_eq!(f.to_string(), "db:shop coll:orders slow");
}

#[test]
fn matches_db_filter() {
    let f = Filter::parse("db:shop");
    assert!(f.matches(&entry("shop", "orders")));
    assert!(!f.matches(&entry("analytics", "pageviews")));
}

#[test]
fn matches_slow_preset() {
    let f = Filter::parse("slow");
    assert!(f.matches(&slow_entry()));
    assert!(!f.matches(&entry("shop", "orders")));
}

#[test]
fn matches_collscan_preset() {
    let f = Filter::parse("collscan");
    assert!(f.matches(&collscan_entry()));
    assert!(!f.matches(&entry("shop", "orders")));
}

#[test]
fn chip_tokens_extracts_known_prefixes() {
    let chips = Filter::chip_tokens("db:shop coll:orders foo");
    assert_eq!(chips, vec!["db:shop", "coll:orders"]);
}

#[test]
fn chip_tokens_includes_collscan_not_warn() {
    let chips = Filter::chip_tokens("slow collscan warn app:api");
    assert_eq!(chips, vec!["slow", "collscan", "app:api"]);
}

#[test]
fn non_chip_text_returns_remainder() {
    let rem = Filter::non_chip_text("db:shop coll:orders foo bar");
    assert_eq!(rem, "foo bar");
}

#[test]
fn remove_token_removes_first_match() {
    let result = Filter::remove_token("db:shop coll:orders foo", "coll:orders");
    assert_eq!(result, "db:shop foo");
}

#[test]
fn printed_filter_parses_back() {
    let f = Filter::parse("db:shop coll:orders app:api collscan find me");
    let again = Filter::parse(&f.to_string());
    assert_eq!(again.db, f.db);
    assert_eq!(again.coll, f.coll);
    assert_eq!(again.app, f.app);
    assert_eq!(again.preset, f.preset);
    assert_eq!(again.text, f.text);
}

#[test]
fn matching_is_case_insensitive_on_names() {
    let f = Filter::parse("db:SHOP");
    assert!(f.matches(&entry("shop", "orders")));
}
