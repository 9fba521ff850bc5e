use mongoscope::bson::{BsonDoc, BsonVal};
use mongoscope::command::MongoCommand;
use mongoscope::intercept::{
    extract_app_name, extract_db_coll, extract_delete_filter, extract_filter, extract_insert_doc,
    extract_pipeline, extract_response_docs, extract_update, reply_received, request_outcome,
    MsgSection, PendingEntry, RequestOutcome, WireOperation,
};

fn d(pairs: Vec<(&str, BsonVal)>) -> BsonDoc {
    let mut out = BsonDoc::new();
    for (k, v) in pairs {
        out.insert(k.to_string(), v);
    }
    out
}

fn s(x: &str) -> BsonVal {
    BsonVal::Str(x.to_string())
}

fn body(doc: BsonDoc) -> WireOperation {
    WireOperation::Message(vec![MsgSection::Body(doc)])
}

#[test]
fn app_name_from_hello() {
    let op = body(d(vec![
        ("hello", BsonVal::Int(1)),
        ("client", BsonVal::Doc(d(vec![("application", BsonVal::Doc(d(vec![("name", s("checkout"))])))]))),
    ]));
    assert_eq!(extract_app_name(&op), Some("checkout".to_string()));
    assert_eq!(extract_app_name(&body(d(vec![("hello", BsonVal::Int(1))]))), None);
    assert_eq!(extract_app_name(&WireOperation::Other), None);
}

#[test]
fn filter_and_db_coll_of_find() {
    let op = body(d(vec![
        ("find", s("orders")),
        ("filter", BsonVal::Doc(d(vec![("status", s("A"))]))),
        ("$db", s("shop")),
    ]));
    let f = extract_filter(&op).unwrap();
    assert_eq!(f.len(), 1);
    assert_eq!(extract_db_coll(&op, "find"), ("shop".to_string(), "orders".to_string()));
    assert_eq!(extract_db_coll(&op, "aggregate"), ("shop".to_string(), "unknown".to_string()));
    assert_eq!(
        extract_db_coll(&WireOperation::Other, "find"),
        ("unknown".to_string(), "unknown".to_string())
    );
}

#[test]
fn query_operation_body_is_its_query() {
    let op = WireOperation::Query(d(vec![("filter", BsonVal::Doc(d(vec![("a", BsonVal::Int(1))])))]));
    assert!(extract_filter(&op).is_some());
}

#[test]
fn pipeline_keeps_document_stages() {
    let op = body(d(vec![(
        "pipeline",
        BsonVal::Array(vec![BsonVal::Doc(d(vec![("$match", BsonVal::Doc(BsonDoc::new()))])), BsonVal::Int(3)]),
    )]));
    assert_eq!(extract_pipeline(&op).unwrap().len(), 1);
    let empty = body(d(vec![("pipeline", BsonVal::Array(vec![BsonVal::Int(3)]))]));
    assert!(extract_pipeline(&empty).is_none());
}

#[test]
fn update_takes_first_statement() {
    let stmt = d(vec![
        ("q", BsonVal::Doc(d(vec![("a", BsonVal::Int(1))]))),
        ("u", BsonVal::Doc(d(vec![("$set", BsonVal::Doc(d(vec![("b", BsonVal::Int(2))])))]))),
    ]);
    let op = body(d(vec![("updates", BsonVal::Array(vec![BsonVal::Doc(stmt)]))]));
    let (f, u) = extract_update(&op);
    assert!(f.is_some());
    assert!(u.is_some());
    let (f, u) = extract_update(&body(d(vec![("updates", BsonVal::Array(vec![]))])));
    assert!(f.is_none() && u.is_none());
}

#[test]
fn delete_filter_falls_back_to_query() {
    let stmt = d(vec![("q", BsonVal::Doc(d(vec![("a", BsonVal::Int(1))])))]);
    let op = body(d(vec![("deletes", BsonVal::Array(vec![BsonVal::Doc(stmt)]))]));
    assert_eq!(extract_delete_filter(&op).unwrap().len(), 1);
    let op = body(d(vec![("query", BsonVal::Doc(d(vec![("x", BsonVal::Int(1)), ("y", BsonVal::Int(2))])))]));
    assert_eq!(extract_delete_filter(&op).unwrap().len(), 2);
}

#[test]
fn insert_doc_from_sequence_then_body() {
    let seq_op = WireOperation::Message(vec![
        MsgSection::Body(d(vec![("insert", s("orders"))])),
        MsgSection::DocumentSequence {
            identifier: "documents".into(),
            documents: vec![d(vec![("a", BsonVal::Int(1))]), d(vec![])],
        },
    ]);
    assert_eq!(extract_insert_doc(&seq_op).unwrap().len(), 1);
    let body_op = body(d(vec![("documents", BsonVal::Array(vec![BsonVal::Doc(d(vec![("a", BsonVal::Int(1)), ("b", BsonVal::Int(1))]))]))]));
    assert_eq!(extract_insert_doc(&body_op).unwrap().len(), 2);
    let empty_seq = WireOperation::Message(vec![MsgSection::DocumentSequence { identifier: "documents".into(), documents: vec![] }]);
    assert!(extract_insert_doc(&empty_seq).is_none());
}

#[test]
fn response_docs_from_cursor_or_reply() {
    let cursor = d(vec![("nextBatch", BsonVal::Array(vec![BsonVal::Doc(BsonDoc::new()), BsonVal::Null, BsonVal::Doc(BsonDoc::new())]))]);
    let op = body(d(vec![("cursor", BsonVal::Doc(cursor))]));
    assert_eq!(extract_response_docs(&op).len(), 2);
    let reply = WireOperation::Reply(vec![BsonDoc::new(), BsonDoc::new(), BsonDoc::new()]);
    assert_eq!(extract_response_docs(&reply).len(), 3);
    assert!(extract_response_docs(&body(d(vec![("ok", BsonVal::Int(1))]))).is_empty());
}

#[test]
fn handshake_requests_are_not_tracked() {
    let op = body(d(vec![
        ("client", BsonVal::Doc(d(vec![("application", BsonVal::Doc(d(vec![("name", s("api"))])))]))),
    ]));
    match request_outcome(Some("isMaster"), &op, 10) {
        RequestOutcome::Handshake { app_name } => assert_eq!(app_name, Some("api".to_string())),
        RequestOutcome::Track(_) => panic!("a handshake is not tracked"),
    }
    match request_outcome(Some("ping"), &op, 10) {
        RequestOutcome::Handshake { app_name } => assert_eq!(app_name, None),
        RequestOutcome::Track(_) => panic!("a handshake is not tracked"),
    }
}

#[test]
fn find_request_is_tracked_with_its_filter() {
    let op = body(d(vec![
        ("find", s("orders")),
        ("filter", BsonVal::Doc(d(vec![("status", s("A"))]))),
        ("$db", s("shop")),
    ]));
    match request_outcome(Some("Find"), &op, 55) {
        RequestOutcome::Track(p) => {
            assert_eq!(p.command, MongoCommand::Find);
            assert!(p.filter.is_some());
            assert!(p.pipeline.is_none());
            assert_eq!(p.db, "shop");
            assert_eq!(p.coll, "orders");
            assert_eq!(p.start_ms, 55);
        }
        RequestOutcome::Handshake { .. } => panic!("find is tracked"),
    }
    match request_outcome(None, &op, 1) {
        RequestOutcome::Track(p) => {
            assert_eq!(p.command, MongoCommand::Other("unknown".into()));
            assert_eq!(p.coll, "unknown");
        }
        RequestOutcome::Handshake { .. } => panic!("unnamed commands are tracked"),
    }
}

#[test]
fn reply_adds_documents_and_reports_latency() {
    let mut p = PendingEntry {
        filter: None,
        pipeline: None,
        update: None,
        doc: None,
        response_docs: vec![],
        start_ms: 1000,
        db: "shop".into(),
        coll: "orders".into(),
        command: MongoCommand::Find,
    };
    let direct = reply_received(&mut p, vec![BsonDoc::new(), BsonDoc::new()], 7, 1250, Some("api".into()));
    assert_eq!(p.response_docs.len(), 2);
    assert_eq!(direct.latency_ms, 250);
    assert_eq!(direct.request_id, 7);
    assert_eq!(direct.db, "shop");
    assert_eq!(direct.app_name, Some("api".to_string()));
    let late = reply_received(&mut p, vec![], 7, 500, None);
    assert_eq!(late.latency_ms, 0);
    assert_eq!(p.response_docs.len(), 2);
}
