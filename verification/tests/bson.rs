use mongoscope::bson::{BsonDoc, BsonVal};

#[test]
fn pairs_build_ordered_documents_with_last_value_winning() {
    let d = BsonDoc::from_pairs(vec![
        ("b".into(), BsonVal::Int(1)),
        ("a".into(), BsonVal::Int(2)),
        ("b".into(), BsonVal::Int(3)),
    ]);
    assert_eq!(d.len(), 2);
    let (k0, v0) = d.get_index(0).unwrap();
    assert_eq!(k0, "b");
    assert!(matches!(v0, BsonVal::Int(3)));
    let (k1, _) = d.get_index(1).unwrap();
    assert_eq!(k1, "a");
    assert!(d.get_index(2).is_none());
    assert!(matches!(d.get("a"), Some(BsonVal::Int(2))));
    assert!(d.get("zz").is_none());
}

#[test]
fn insert_reports_previous_value_and_copies_are_equal() {
    let mut d = BsonDoc::new();
    assert!(d.is_empty());
    assert!(d.insert("k".into(), BsonVal::Bool(true)).is_none());
    assert!(matches!(d.insert("k".into(), BsonVal::Null), Some(BsonVal::Bool(true))));
    let c = d.clone();
    assert_eq!(c.len(), 1);
    assert!(matches!(c.get("k"), Some(BsonVal::Null)));
    let arr = BsonVal::Array(vec![BsonVal::Int(1), BsonVal::Str("x".into())]);
    match arr.clone() {
        BsonVal::Array(v) => assert_eq!(v.len(), 2),
        _ => panic!("an array clones to an array"),
    }
}
