use mongoscope::bson::{BsonDoc, BsonVal};
use mongoscope::compose::{compose_query, ComposePiece};
use mongoscope::inspector::InspectorState;
use mongoscope::model::{Op, QueryEntry};
use mongoscope::types::{
    AppName, CollectionName, ConnId, DatabaseName, LatencyMs, QueryId, TimestampMs,
};

fn entry(op: Op, filter: Option<BsonDoc>, pipeline: Option<Vec<BsonDoc>>) -> QueryEntry {
    QueryEntry {
        id: QueryId::try_new(1).unwrap(),
        t_ms: TimestampMs::new(0),
        latency_ms: LatencyMs::new(1),
        op,
        db: DatabaseName::try_new("shop").unwrap(),
        coll: CollectionName::try_new("orders").unwrap(),
        app: AppName::try_new("api").unwrap(),
        plan: None,
        index: None,
        docs_examined: None,
        docs_returned: None,
        filter,
        pipeline,
        update: None,
        doc: None,
        warn: None,
        slow: false,
        is_system: false,
        conn_id: ConnId::new(1),
        lsid: None,
        cluster_time: None,
        response_docs: vec![],
        rejected_plan_count: 0,
        suggestions: vec![],
    }
}

fn render(pieces: &[ComposePiece]) -> String {
    let mut out = String::new();
    for p in pieces {
        match p {
            ComposePiece::Text(t) => out.push_str(t),
            ComposePiece::Float(b) => out.push_str(&format!("{:.2}", f64::from_bits(*b))),
        }
    }
    out
}

#[test]
fn find_writes_each_filter_value_in_shell_form() {
    let f = BsonDoc::from_pairs(vec![
        ("status".into(), BsonVal::Str("open".into())),
        ("qty".into(), BsonVal::Int(-12)),
        ("price".into(), BsonVal::Float(2.5f64.to_bits())),
        ("gift".into(), BsonVal::Bool(true)),
        ("_id".into(), BsonVal::ObjectId("65a1".into())),
        ("at".into(), BsonVal::IsoDate("2024-01-01".into())),
        ("note".into(), BsonVal::Null),
        ("tags".into(), BsonVal::Array(vec![])),
    ]);
    let text = render(&compose_query(&entry(Op::Find, Some(f), None)));
    assert_eq!(
        text,
        "db.orders.find(\n{\n  \"status\": \"open\",\n  \"qty\": -12,\n  \"price\": 2.50,\n  \"gift\": true,\n  \"_id\": ObjectId(\"65a1\"),\n  \"at\": ISODate(\"2024-01-01\"),\n  \"note\": null,\n  \"tags\": \"…\"\n}\n)"
    );
}

#[test]
fn find_one_and_count_without_filter_use_empty_document() {
    assert_eq!(
        render(&compose_query(&entry(Op::FindOne, None, None))),
        "db.orders.findOne(\n{}\n)"
    );
    assert_eq!(
        render(&compose_query(&entry(Op::CountDocuments, Some(BsonDoc::new()), None))),
        "db.orders.countDocuments(\n{\n\n}\n)"
    );
}

#[test]
fn aggregate_lists_the_first_key_of_each_stage() {
    let s1 = BsonDoc::from_pairs(vec![("$match".into(), BsonVal::Null)]);
    let s2 = BsonDoc::from_pairs(vec![
        ("$group".into(), BsonVal::Null),
        ("$extra".into(), BsonVal::Null),
    ]);
    assert_eq!(
        render(&compose_query(&entry(Op::Aggregate, None, Some(vec![s1, s2, BsonDoc::new()])))),
        "db.orders.aggregate(\n[\n  { $match: {} },\n  { $group: {} },\n  { : {} }\n]\n)"
    );
    assert_eq!(
        render(&compose_query(&entry(Op::Aggregate, None, None))),
        "db.orders.aggregate(\n[]\n)"
    );
}

#[test]
fn other_operations_start_from_a_plain_find() {
    assert_eq!(
        render(&compose_query(&entry(Op::DeleteMany, None, None))),
        "db.orders.find({})"
    );
    assert_eq!(
        render(&compose_query(&entry(Op::Unknown("ping".into()), None, None))),
        "db.orders.find({})"
    );
}

#[test]
fn extreme_integers_are_written_in_full() {
    let f = BsonDoc::from_pairs(vec![
        ("lo".into(), BsonVal::Int(i64::MIN)),
        ("hi".into(), BsonVal::Int(i64::MAX)),
    ]);
    assert_eq!(
        render(&compose_query(&entry(Op::Find, Some(f), None))),
        "db.orders.find(\n{\n  \"lo\": -9223372036854775808,\n  \"hi\": 9223372036854775807\n}\n)"
    );
}

#[test]
fn seeding_the_inspector_replaces_the_compose_query() {
    let mut ins = InspectorState::new();
    assert!(ins.compose.is_empty());
    ins.seed_compose(&entry(Op::FindOne, None, None));
    assert_eq!(render(&ins.compose), "db.orders.findOne(\n{}\n)");
}
