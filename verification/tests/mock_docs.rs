use mongoscope::bson::{BsonDoc, BsonVal};
use mongoscope::mock_docs::{gen_response_docs, make_doc};
use mongoscope::model::Op;

fn fields(d: &BsonDoc) -> Vec<(String, String)> {
    let mut out = Vec::new();
    for i in 0..d.len() {
        let (k, v) = d.get_index(i).unwrap();
        let shown = match v {
            BsonVal::Str(s) => format!("str {s}"),
            BsonVal::ObjectId(s) => format!("oid {s}"),
            BsonVal::IsoDate(s) => format!("date {s}"),
            BsonVal::Int(n) => format!("int {n}"),
            BsonVal::Bool(b) => format!("bool {b}"),
            BsonVal::Float(b) => format!("float {:.2}", f64::from_bits(*b)),
            _ => "other".to_string(),
        };
        out.push((k.clone(), shown));
    }
    out
}

fn pairs(v: &[(&str, &str)]) -> Vec<(String, String)> {
    v.iter().map(|(a, b)| (a.to_string(), b.to_string())).collect()
}

fn totals() -> Vec<u64> {
    (0..5).map(|i| (49.0 + i as f64 * 17.33).to_bits()).collect()
}

#[test]
fn orders_documents() {
    assert_eq!(
        fields(&make_doc("orders", 1, totals()[1])),
        pairs(&[
            ("_id", "oid 66f02c4a8b4e9c2d1f002"),
            ("userId", "oid 65fe21c3a8b4e9c2d1f04a12"),
            ("total", "float 66.33"),
            ("status", "str pending"),
            ("createdAt", "date 2026-04-21T09:13:41Z"),
        ])
    );
}

#[test]
fn documents_of_each_collection() {
    assert_eq!(
        fields(&make_doc("products", 3, 0)),
        pairs(&[
            ("_id", "oid 66f04c4a8b4e9c2d1f004"),
            ("sku", "str SKU-88424-BLK-M"),
            ("name", "str Wool Coat"),
            ("price", "int 109"),
            ("inStock", "bool false"),
        ])
    );
    assert_eq!(
        fields(&make_doc("users", 0, 0)),
        pairs(&[
            ("_id", "oid 66f01c4a8b4e9c2d1f001"),
            ("email", "str user1000@example.com"),
            ("name", "str User 1000"),
            ("role", "str admin"),
            ("createdAt", "date 2025-01T00:00:00Z"),
        ])
    );
    assert_eq!(
        fields(&make_doc("carts", 0, 0)),
        pairs(&[
            ("_id", "oid 66f01c4a8b4e9c2d1f001"),
            ("userId", "oid 65fe21c3a8b4e9c2d1f00064"),
            ("updatedAt", "date 2026-04-24T10:00:00Z"),
        ])
    );
    assert_eq!(
        fields(&make_doc("sessions", 2, 0)),
        pairs(&[
            ("_id", "oid 66f03c4a8b4e9c2d1f003"),
            ("ip", "str 192.168.2.14"),
            ("expiresAt", "date 2026-05-3T00:00:00Z"),
        ])
    );
    assert_eq!(
        fields(&make_doc("reviews", 0, 0)),
        pairs(&[
            ("_id", "oid 66f01c4a8b4e9c2d1f001"),
            ("productId", "oid 66f01b3a8c4e9d2f1e005"),
            ("rating", "int 1"),
            ("body", "str Great product!"),
        ])
    );
    assert_eq!(
        fields(&make_doc("inventory", 1, 0)),
        pairs(&[
            ("_id", "oid 66f02c4a8b4e9c2d1f002"),
            ("sku", "str SKU-88422-BLK-M"),
            ("qty", "int 113"),
            ("warehouse", "str west-2"),
        ])
    );
    assert_eq!(
        fields(&make_doc("events", 3, 0)),
        pairs(&[
            ("_id", "oid 66f04c4a8b4e9c2d1f004"),
            ("type", "str add_to_cart"),
            ("ts", "date 2026-04-24T17:03:08Z"),
        ])
    );
    assert_eq!(
        fields(&make_doc("logs", 0, 0)),
        pairs(&[
            ("_id", "oid 66f01c4a8b4e9c2d1f001"),
            ("type", "str generic"),
            ("ts", "date 2026-04-24T14:22:08Z"),
        ])
    );
}

#[test]
fn ids_widen_past_two_hex_digits() {
    assert_eq!(fields(&make_doc("logs", 255, 0))[0].1, "oid 66f100c4a8b4e9c2d1f0100");
}

#[test]
fn reads_get_at_most_five_documents_and_writes_none() {
    let t = totals();
    let docs = gen_response_docs("orders", &Op::Find, 12, &t);
    assert_eq!(docs.len(), 5);
    assert_eq!(fields(&docs[4])[2].1, "float 118.32");
    assert_eq!(gen_response_docs("orders", &Op::Aggregate, 2, &t).len(), 2);
    assert!(gen_response_docs("orders", &Op::InsertOne, 3, &t).is_empty());
}
