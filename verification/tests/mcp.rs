use mongoscope::bson::{BsonDoc, BsonVal};
use mongoscope::mcp::{
    cleared_report, connection_added_report, connection_removed_report, connection_string_report,
    connections_report, estimates_fit, in_id_order, nothing_to_clear_report, unknown_connection_report,
    ConnectionRow,
    apply_suggestion_report, find_request, format_entry_detail, format_entry_summary,
    index_spec_from_entry, list_requests_report, namespaces_report, no_request_report,
    recommendations_report, select_requests, stats_report, tally,
};
use mongoscope::model::{IndexSuggestion, Op, Plan, QueryEntry, Suggestion};
use mongoscope::types::{
    AppName, CollectionName, ConnId, DatabaseName, DocsReturned, LatencyMs, QueryId, TimestampMs,
};

fn entry(id: u64, db: &str, coll: &str, slow: bool) -> QueryEntry {
    QueryEntry {
        id: QueryId::try_new(id).unwrap(),
        t_ms: TimestampMs::new(0),
        latency_ms: LatencyMs::new(if slow { 1500 } else { 12 }),
        op: Op::Find,
        db: DatabaseName::try_new(db).unwrap(),
        coll: CollectionName::try_new(coll).unwrap(),
        app: AppName::try_new("api").unwrap(),
        plan: None,
        index: None,
        docs_examined: None,
        docs_returned: None,
        filter: None,
        pipeline: None,
        update: None,
        doc: None,
        warn: None,
        slow,
        is_system: false,
        conn_id: ConnId::new(id as u32),
        lsid: None,
        cluster_time: None,
        response_docs: vec![],
        rejected_plan_count: 0,
        suggestions: vec![],
    }
}

fn with_suggestion(mut e: QueryEntry) -> QueryEntry {
    let mut f = BsonDoc::new();
    f.insert("status".into(), BsonVal::Str("A".into()));
    f.insert("total".into(), BsonVal::Int(3));
    e.filter = Some(f);
    e.plan = Some(Plan::CollScan);
    e.suggestions = vec![Suggestion::CreateIndex(IndexSuggestion { ixscan_ms: 50, fetch_ms: 25, sort_ms: 0, limit_ms: 0 })];
    e
}

#[test]
fn listing_is_newest_first_filtered_and_limited() {
    let es = vec![
        entry(1, "shop", "orders", true),
        entry(2, "shop", "carts", false),
        entry(3, "auth", "tokens", true),
        entry(4, "shop", "orders", true),
    ];
    let ids = |v: Vec<&QueryEntry>| v.iter().map(|e| e.id.into_inner()).collect::<Vec<_>>();
    assert_eq!(ids(select_requests(&es, None, None, None, None)), vec![4, 3, 2, 1]);
    assert_eq!(ids(select_requests(&es, Some(2), None, None, None)), vec![4, 3]);
    assert_eq!(ids(select_requests(&es, None, Some(true), Some("shop"), None)), vec![4, 1]);
    assert_eq!(ids(select_requests(&es, None, None, Some("shop"), Some("carts"))), vec![2]);
    assert_eq!(ids(select_requests(&es, Some(0), None, None, None)), Vec::<u64>::new());
}

#[test]
fn slow_listing_keeps_only_requests_over_a_second() {
    let mut at_limit = entry(1, "shop", "orders", true);
    at_limit.latency_ms = LatencyMs::new(1000);
    let mut over = entry(2, "shop", "orders", true);
    over.latency_ms = LatencyMs::new(1001);
    let es = vec![at_limit, over];
    let ids = |v: Vec<&QueryEntry>| v.iter().map(|e| e.id.into_inner()).collect::<Vec<_>>();
    assert_eq!(ids(select_requests(&es, None, Some(true), None, None)), vec![2]);
    assert_eq!(ids(select_requests(&es, None, Some(false), None, None)), vec![2, 1]);
}

#[test]
fn index_spec_lists_filter_keys() {
    let e = with_suggestion(entry(1, "shop", "orders", true));
    assert_eq!(index_spec_from_entry(&e), Some("{ \"status\": 1, \"total\": 1 }".to_string()));
    assert_eq!(index_spec_from_entry(&entry(2, "shop", "orders", false)), None);
    let mut empty = entry(3, "shop", "orders", false);
    empty.filter = Some(BsonDoc::new());
    assert_eq!(index_spec_from_entry(&empty), None);
}

#[test]
fn summary_line_format() {
    let e = with_suggestion(entry(42, "shop", "orders", true));
    assert_eq!(format_entry_summary(&e), "[42] FIND | api | shop.orders | 1500ms | COLLSCAN SLOW [index suggestion]");
    assert_eq!(format_entry_summary(&entry(7, "a", "b", false)), "[7] FIND | api | a.b | 12ms | —");
}

#[test]
fn detail_report_format() {
    let mut e = with_suggestion(entry(42, "shop", "orders", true));
    e.docs_returned = Some(DocsReturned::new(3));
    let text = format_entry_detail(&e, "{\"status\":\"A\"}", "");
    let expected = [
        "=== Request 42 ===",
        "Operation : FIND",
        "Namespace : shop.orders",
        "App       : api",
        "Latency   : 1500ms (SLOW)",
        "Plan      : COLLSCAN",
        "Returned  : 3 docs",
        "Filter   : {\"status\":\"A\"}",
        "Suggestions:",
        "  [0] createIndex({ \"status\": 1, \"total\": 1 }) on shop.orders — estimated gain: ~75ms (IXSCAN 50ms + FETCH 25ms + SORT 0ms)",
        "       → apply_suggestion request_id=42 suggestion_id=0",
    ]
    .join("\n");
    assert_eq!(text, expected);
}

#[test]
fn list_report_format() {
    let es = vec![entry(1, "shop", "orders", false), entry(2, "shop", "orders", true)];
    let shown = select_requests(&es, None, Some(true), None, None);
    assert_eq!(
        list_requests_report(es.len(), &shown),
        "Showing 1 of 2 total captured (newest first):\n\n[2] FIND | api | shop.orders | 1500ms | — SLOW"
    );
    assert_eq!(
        list_requests_report(0, &vec![]),
        "No requests captured yet. Ensure your application is connected to the proxy connection string."
    );
}

#[test]
fn stats_and_namespaces() {
    let mut agg = entry(3, "auth", "tokens", false);
    agg.op = Op::Aggregate;
    let es = vec![entry(1, "shop", "orders", true), entry(2, "shop", "orders", false), agg];
    assert_eq!(
        stats_report(&es),
        "Total captured   : 3\nSlow (>1000ms)   : 1\nWith suggestions : 0\n\nBy operation type:\n  FIND: 2\n  AGG: 1"
    );
    assert_eq!(
        namespaces_report(&es),
        "2 namespace(s):\n\n  shop.orders — 2 queries\n  auth.tokens — 1 queries"
    );
    assert_eq!(stats_report(&vec![]), "No requests captured yet.");
    assert_eq!(namespaces_report(&vec![]), "No namespaces seen yet.");
}

#[test]
fn tally_keeps_first_appearance_order() {
    let keys: Vec<String> = vec!["b".into(), "a".into(), "b".into(), "c".into(), "a".into(), "b".into()];
    assert_eq!(tally(&keys), vec![("b".to_string(), 3), ("a".to_string(), 2), ("c".to_string(), 1)]);
}

#[test]
fn recommendations_report_format() {
    let es = vec![entry(1, "shop", "carts", false), with_suggestion(entry(2, "shop", "orders", true))];
    assert_eq!(
        recommendations_report(&es),
        "1 request(s) have index recommendations:\n\n[2] FIND | api | shop.orders | 1500ms | COLLSCAN SLOW [index suggestion]\n  [suggestion 0] createIndex({ \"status\": 1, \"total\": 1 }) on shop.orders — estimated: IXSCAN 50ms + FETCH 25ms + SORT 0ms (currently 1500ms)"
    );
    assert!(recommendations_report(&vec![entry(1, "a", "b", false)]).starts_with("No index recommendations found."));
}

#[test]
fn apply_suggestion_answers() {
    let es = vec![with_suggestion(entry(2, "shop", "orders", true))];
    assert_eq!(
        apply_suggestion_report(&es, 2, 0),
        "Run in mongosh against the `shop` database:\n\ndb.orders.createIndex({ \"status\": 1, \"total\": 1 })\n\nOr with explicit database:\n\ndb.getSiblingDB(\"shop\").orders.createIndex({ \"status\": 1, \"total\": 1 })"
    );
    assert_eq!(
        apply_suggestion_report(&es, 2, 1),
        "No suggestion with index 1 for request 2. Use get_request to see available suggestions."
    );
    assert_eq!(apply_suggestion_report(&es, 9, 0), no_request_report(9));
    assert_eq!(no_request_report(9), "No request found with ID 9. Use list_requests to see available IDs.");
    assert_eq!(find_request(&es, 2), Some(0));
    assert_eq!(find_request(&es, 3), None);
}

#[test]
fn requests_of_all_connections_come_out_in_id_order_stably() {
    let es = vec![
        entry(5, "a", "x", false),
        entry(2, "b", "x", false),
        entry(5, "c", "x", false),
        entry(1, "d", "x", false),
        entry(2, "e", "x", false),
    ];
    let sorted = in_id_order(es);
    let seen: Vec<(u64, String)> = sorted
        .iter()
        .map(|e| (e.id.into_inner(), e.db.as_str().to_string()))
        .collect();
    assert_eq!(
        seen,
        vec![
            (1, "d".to_string()),
            (2, "b".to_string()),
            (2, "e".to_string()),
            (5, "a".to_string()),
            (5, "c".to_string()),
        ]
    );
    assert!(in_id_order(vec![]).is_empty());
}

#[test]
fn connection_reports_name_the_proxy_address() {
    assert_eq!(
        connection_added_report(7, "orders-db", 40123, "mongodb://db:27017/"),
        "Connection added (ID: 7).\nName: orders-db\nProxy connection string: mongodb://127.0.0.1:40123/\n\nPoint your application at the proxy URI instead of mongodb://db:27017/ to start capturing traffic."
    );
    assert_eq!(
        connection_string_report(40123, "mongodb://db:27017/"),
        "mongodb://127.0.0.1:40123/\n\nUse this instead of mongodb://db:27017/ to have traffic captured by Mongoscope."
    );
    assert_eq!(connection_removed_report(7, "orders-db"), "Connection 7 (orders-db) removed.");
    assert_eq!(
        unknown_connection_report(9),
        "No connection with ID 9. Use list_connections to see available connections."
    );
}

#[test]
fn connection_list_counts_and_describes_each_connection() {
    assert_eq!(
        connections_report(&vec![]),
        "No connections. Use add_connection to start intercepting traffic."
    );
    let rows = vec![
        ConnectionRow { id: 1, name: "a".into(), upstream_uri: "mongodb://x/".into(), proxy_port: 5000, requests: 3 },
        ConnectionRow { id: 4, name: "b".into(), upstream_uri: "mongodb://y/".into(), proxy_port: 5001, requests: 0 },
    ];
    assert_eq!(
        connections_report(&rows),
        "2 connection(s):\n\n[1] a → mongodb://x/ | proxy: mongodb://127.0.0.1:5000/ | 3 requests captured\n[4] b → mongodb://y/ | proxy: mongodb://127.0.0.1:5001/ | 0 requests captured"
    );
}

#[test]
fn clearing_reports_what_was_cleared() {
    assert_eq!(cleared_report(Some(3), 1), "Cleared requests for connection 3.");
    assert_eq!(cleared_report(None, 2), "Cleared requests for all 2 connection(s).");
    assert_eq!(nothing_to_clear_report(5), "No connection with ID 5.");
}

#[test]
fn detail_estimates_must_sum_in_32_bits() {
    let mut e = entry(1, "shop", "orders", false);
    assert!(estimates_fit(&e));
    e.suggestions = vec![Suggestion::CreateIndex(IndexSuggestion { ixscan_ms: u32::MAX, fetch_ms: 0, sort_ms: 0, limit_ms: 9 })];
    assert!(estimates_fit(&e));
    e.suggestions.push(Suggestion::CreateIndex(IndexSuggestion { ixscan_ms: u32::MAX, fetch_ms: 1, sort_ms: 0, limit_ms: 0 }));
    assert!(!estimates_fit(&e));
}
