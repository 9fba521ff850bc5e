use std::collections::VecDeque;
use std::sync::atomic::AtomicU64;
use std::sync::Arc;

use mongoscope::bson::{BsonDoc, BsonVal};
use mongoscope::command::MongoCommand;
use mongoscope::intercept::{DirectEntry, PendingEntry};
use mongoscope::model::{Op, Plan, QueryEntry, Suggestion};
use mongoscope::proxy::{
    build_suggestions, classify_plan, command_to_op, direct_to_entry, explain_to_entry,
    parse_mongo_uri, store_upsert, ExplainCommand, ExplainEvent, PlanNode, PlanStage, ProxySource,
};
use mongoscope::types::{
    AppName, CollectionName, ConnId, DatabaseName, LatencyMs, QueryId, TimestampMs,
};

fn doc(pairs: &[(&str, i64)]) -> BsonDoc {
    let mut d = BsonDoc::new();
    for (k, v) in pairs {
        d.insert(k.to_string(), BsonVal::Int(*v));
    }
    d
}

fn entry(id: u64, conn: u32) -> QueryEntry {
    QueryEntry {
        id: QueryId::try_new(id).unwrap(),
        t_ms: TimestampMs::new(0),
        latency_ms: LatencyMs::new(5),
        op: Op::Find,
        db: DatabaseName::try_new("shop").unwrap(),
        coll: CollectionName::try_new("orders").unwrap(),
        app: AppName::try_new("api").unwrap(),
        plan: None,
        index: None,
        docs_examined: None,
        docs_returned: None,
        filter: None,
        pipeline: None,
        update: None,
        doc: None,
        warn: None,
        slow: false,
        is_system: false,
        conn_id: ConnId::new(conn),
        lsid: None,
        cluster_time: None,
        response_docs: vec![],
        rejected_plan_count: 0,
        suggestions: vec![],
    }
}

fn node(stage: PlanStage, index: Option<&str>, children: Vec<PlanNode>) -> PlanNode {
    PlanNode { stage, index_name: index.map(|s| s.to_string()), children }
}

#[test]
fn parse_uri_host_and_port() {
    assert_eq!(parse_mongo_uri("mongodb://localhost:27017/"), Ok(("localhost".to_string(), 27017)));
    assert_eq!(parse_mongo_uri("mongodb://db.example.com:27018"), Ok(("db.example.com".to_string(), 27018)));
}

#[test]
fn parse_uri_default_port_and_credentials() {
    assert_eq!(parse_mongo_uri("mongodb://localhost"), Ok(("localhost".to_string(), 27017)));
    assert_eq!(
        parse_mongo_uri("mongodb://user:p@ss@host.example:27100/admin?authSource=admin"),
        Ok(("host.example".to_string(), 27100))
    );
    assert_eq!(parse_mongo_uri("mongodb+srv://cluster0.example.net/db"), Ok(("cluster0.example.net".to_string(), 27017)));
}

#[test]
fn parse_uri_ipv6_brackets() {
    assert_eq!(parse_mongo_uri("mongodb://[::1]:27017/"), Ok(("::1".to_string(), 27017)));
}

#[test]
fn parse_uri_errors() {
    assert_eq!(
        parse_mongo_uri("mongodb://localhost:notaport/"),
        Err("invalid port in URI: mongodb://localhost:notaport/".to_string())
    );
    assert_eq!(
        parse_mongo_uri("mongodb://localhost:70000"),
        Err("invalid port in URI: mongodb://localhost:70000".to_string())
    );
    assert_eq!(parse_mongo_uri("mongodb://:27017"), Err("empty host in URI: mongodb://:27017".to_string()));
    assert_eq!(parse_mongo_uri("mongodb:///db"), Err("could not parse host from URI: mongodb:///db".to_string()));
    assert_eq!(parse_mongo_uri(""), Err("could not parse host from URI: ".to_string()));
}

#[test]
fn parse_uri_port_with_plus_sign() {
    assert_eq!(parse_mongo_uri("h:+80"), Ok(("h".to_string(), 80)));
    assert_eq!(parse_mongo_uri("h:65535"), Ok(("h".to_string(), 65535)));
}

#[test]
fn suggestions_only_for_filtered_collscans() {
    let filter = Some(doc(&[("status", 1)]));
    let s = build_suggestions(&Some(Plan::CollScan), &filter, 1234);
    assert_eq!(s.len(), 1);
    match s[0] {
        Suggestion::CreateIndex(x) => {
            assert_eq!(x.ixscan_ms, 50);
            assert_eq!(x.fetch_ms, 25);
            assert_eq!(x.sort_ms, 0);
            assert_eq!(x.limit_ms, 0);
        }
    }
    let small = build_suggestions(&Some(Plan::CollScan), &filter, 300);
    match small[0] {
        Suggestion::CreateIndex(x) => {
            assert_eq!(x.ixscan_ms, 30);
            assert_eq!(x.fetch_ms, 15);
        }
    }
    assert!(build_suggestions(&Some(Plan::IdHack), &filter, 1234).is_empty());
    assert!(build_suggestions(&Some(Plan::CollScan), &None, 1234).is_empty());
    assert!(build_suggestions(&Some(Plan::CollScan), &Some(BsonDoc::new()), 1234).is_empty());
    assert!(build_suggestions(&None, &filter, 1234).is_empty());
}

#[test]
fn explain_commands_map_to_operations() {
    assert_eq!(command_to_op(&ExplainCommand::Find), Op::Find);
    assert_eq!(command_to_op(&ExplainCommand::Count), Op::CountDocuments);
    assert_eq!(command_to_op(&ExplainCommand::Update), Op::UpdateMany);
    assert_eq!(command_to_op(&ExplainCommand::Delete), Op::DeleteMany);
    assert_eq!(command_to_op(&ExplainCommand::Distinct), Op::Unknown("DISTINCT".into()));
    assert_eq!(command_to_op(&ExplainCommand::FindAndModify), Op::Unknown("FINDMOD".into()));
    assert_eq!(command_to_op(&ExplainCommand::Other("mapReduce".into())), Op::Unknown("MAPREDUCE".into()));
    assert_eq!(command_to_op(&ExplainCommand::Unlisted), Op::Unknown("UNKNOWN".into()));
}

#[test]
fn classify_plan_finds_first_access_stage() {
    let tree = node(
        PlanStage::Other,
        None,
        vec![
            node(PlanStage::Other, None, vec![]),
            node(PlanStage::Other, None, vec![node(PlanStage::Ixscan, Some("status_1"), vec![])]),
            node(PlanStage::Collscan, None, vec![]),
        ],
    );
    let (plan, index) = classify_plan(&tree);
    assert_eq!(plan, Some(Plan::IxScan(mongoscope::types::IndexName::try_new("status_1").unwrap())));
    assert_eq!(index.map(|i| i.as_str().to_string()), Some("status_1".to_string()));
    let (plan, index) = classify_plan(&node(PlanStage::SbeScan, None, vec![]));
    assert_eq!(plan, Some(Plan::CollScan));
    assert!(index.is_none());
    let (plan, _) = classify_plan(&node(PlanStage::ExpressIxscan, None, vec![]));
    assert_eq!(plan, Some(Plan::IdHack));
    let (plan, index) = classify_plan(&node(PlanStage::Other, None, vec![node(PlanStage::Other, None, vec![])]));
    assert!(plan.is_none() && index.is_none());
}

#[test]
fn classify_plan_unnamed_index_is_unknown() {
    let (plan, index) = classify_plan(&node(PlanStage::DistinctScan, Some("  "), vec![]));
    match plan {
        Some(Plan::IxScan(n)) => assert_eq!(n.as_str(), "unknown"),
        other => panic!("unexpected plan {:?}", other),
    }
    assert!(index.is_none());
}

#[test]
fn store_upsert_replaces_by_connection_and_caps() {
    let mut store: VecDeque<QueryEntry> = VecDeque::new();
    store_upsert(&mut store, entry(1, 10));
    store_upsert(&mut store, entry(2, 20));
    store_upsert(&mut store, entry(3, 10));
    assert_eq!(store.len(), 2);
    assert_eq!(store[0].id.into_inner(), 3);
    assert_eq!(store[1].id.into_inner(), 2);
    for i in 0..10_001u32 {
        store_upsert(&mut store, entry(100 + i as u64, 1000 + i));
    }
    assert_eq!(store.len(), 10_000);
    assert_eq!(store[store.len() - 1].id.into_inner(), 100 + 10_000);
}

#[test]
fn direct_entry_becomes_request() {
    let d = DirectEntry {
        request_id: -42,
        command: MongoCommand::Insert,
        db: "  shop ".into(),
        coll: "".into(),
        start_ms: 1700,
        latency_ms: 1000,
        filter: None,
        pipeline: None,
        update: None,
        doc: Some(doc(&[("a", 1)])),
        app_name: None,
    };
    let e = direct_to_entry(d, 9);
    assert_eq!(e.id.into_inner(), 9);
    assert_eq!(e.t_ms.into_inner(), 1700);
    assert_eq!(e.op, Op::InsertOne);
    assert_eq!(e.db.as_str(), "shop");
    assert_eq!(e.coll.as_str(), "unknown");
    assert_eq!(e.app.as_str(), "unknown");
    assert!(e.slow);
    assert!(!e.is_system);
    assert_eq!(e.conn_id.into_inner(), 42);
    assert!(e.doc.is_some());
    assert!(e.suggestions.is_empty());
}

#[test]
fn explain_event_becomes_request_with_suggestion() {
    let ev = ExplainEvent {
        command: ExplainCommand::Find,
        database: "shop".into(),
        collection: "orders".into(),
        plan: node(PlanStage::Collscan, None, vec![]),
        execution_ms: 250,
        docs_examined: 5000,
        n_returned: -3,
        client_request_id: 77,
    };
    let pending = PendingEntry {
        filter: Some(doc(&[("status", 1), ("total", 2)])),
        pipeline: None,
        update: None,
        doc: None,
        response_docs: vec![doc(&[("x", 1)])],
        start_ms: 0,
        db: "shop".into(),
        coll: "orders".into(),
        command: MongoCommand::Find,
    };
    let e = explain_to_entry(ev, 5, 123, Some(pending), Some("checkout".into()));
    assert_eq!(e.id.into_inner(), 5);
    assert_eq!(e.t_ms.into_inner(), 123);
    assert_eq!(e.latency_ms.into_inner(), 250);
    assert_eq!(e.plan, Some(Plan::CollScan));
    assert_eq!(e.docs_examined.unwrap().into_inner(), 5000);
    assert_eq!(e.docs_returned.unwrap().into_inner(), 0);
    assert_eq!(e.app.as_str(), "checkout");
    assert_eq!(e.conn_id.into_inner(), 77);
    assert!(!e.slow);
    assert_eq!(e.response_docs.len(), 1);
    assert_eq!(e.suggestions.len(), 1);
}

#[test]
fn proxy_source_keeps_its_settings() {
    let next = Arc::new(AtomicU64::new(1));
    let p = ProxySource::new("localhost".into(), 27017, 27117, next.clone());
    assert_eq!(p.upstream_host, "localhost");
    assert_eq!(p.upstream_port, 27017);
    assert_eq!(p.proxy_port, 27117);
    assert!(Arc::ptr_eq(&p.next_id, &next));
}

#[test]
fn a_built_connection_string_parses_back_to_its_host_and_port() {
    for (host, port) in [("db.example", 0u16), ("10.0.0.7", 27018), ("h", 65535)] {
        let uri = format!("mongodb://{host}:{port}/");
        let (h, p) = parse_mongo_uri(&uri).unwrap();
        assert_eq!(h, host);
        assert_eq!(p, port);
    }
}
