//! The response documents the demo source makes up for a read: a few
//! documents shaped like those of the collection asked.

use vstd::prelude::*;
use crate::bson::{doc_entries, BsonDoc, BsonVal};
use crate::mock::hex_digit;
use crate::model::{op_is_read, Op};
use crate::text::{concat, decimal, decimal_string, push_char, str_eq};

verus! {

/// The hexadecimal digits of `n`, without leading zeros.
pub open spec fn hex_digits(n: nat) -> Seq<char>
    decreases n,
{
    if n < 16 {
        seq![hex_digit(n)]
    } else {
        hex_digits(n / 16) + seq![hex_digit(n % 16)]
    }
}

/// `d` with zeros in front up to `w` characters, as `{:0w}` pads.
pub open spec fn zero_padded(d: Seq<char>, w: nat) -> Seq<char> {
    if d.len() >= w {
        d
    } else {
        Seq::new((w - d.len()) as nat, |_i: int| '0') + d
    }
}

/// `n` as `format!("{:0w$x}", n)` writes it.
pub open spec fn hex_pad(n: nat, w: nat) -> Seq<char> {
    zero_padded(hex_digits(n), w)
}

/// `n` as `format!("{:0w$}", n)` writes it.
pub open spec fn dec_pad(n: nat, w: nat) -> Seq<char> {
    zero_padded(decimal(n), w)
}

/// What a field of a made-up document holds.
pub enum MockVal {
    Str(Seq<char>),
    Oid(Seq<char>),
    Date(Seq<char>),
    Int(int),
    Bool(bool),
    Float(u64),
}

/// Whether the value `v` is what `m` describes.
pub open spec fn holds(v: BsonVal, m: MockVal) -> bool {
    match m {
        MockVal::Str(s) => v matches BsonVal::Str(x) && x@ == s,
        MockVal::Oid(s) => v matches BsonVal::ObjectId(x) && x@ == s,
        MockVal::Date(s) => v matches BsonVal::IsoDate(x) && x@ == s,
        MockVal::Int(n) => v matches BsonVal::Int(x) && x as int == n,
        MockVal::Bool(b) => v == BsonVal::Bool(b),
        MockVal::Float(b) => v == BsonVal::Float(b),
    }
}

/// Whether the entries `e` are the fields `fs`, in order.
pub open spec fn shaped(e: Seq<(Seq<char>, BsonVal)>, fs: Seq<(Seq<char>, MockVal)>) -> bool {
    &&& e.len() == fs.len()
    &&& forall|k: int| 0 <= k < e.len() ==> (#[trigger] e[k]).0 == fs[k].0 && holds(e[k].1, fs[k].1)
}

/// One of `xs`, chosen by `i`.
pub open spec fn pick(xs: Seq<Seq<char>>, i: nat) -> Seq<char> {
    xs[(i % xs.len()) as int]
}

/// The `_id` of the document `i`.
pub open spec fn mock_id(i: nat) -> Seq<char> {
    "66f"@ + hex_pad(i + 1, 2) + "c4a8b4e9c2d1f0"@ + hex_pad(i + 1, 2)
}

/// The fields after `_id` of document `n` of `orders`.
pub open spec fn orders_fields(i: usize, total_bits: u64) -> Seq<(Seq<char>, MockVal)> {
    let n = i as nat;
    seq![
        ("userId"@, MockVal::Oid("65fe21c3a8b4e9c2d1f04a12"@)),
        ("total"@, MockVal::Float(total_bits)),
        ("status"@, MockVal::Str(pick(seq!["paid"@, "pending"@, "shipped"@], n))),
        ("createdAt"@, MockVal::Date("2026-04-"@ + decimal(20 + n % 10) + "T09:"@ + dec_pad(12 + n % 48, 2) + ":41Z"@)),
    ]
}

/// The fields after `_id` of document `n` of `products`.
pub open spec fn products_fields(i: usize, total_bits: u64) -> Seq<(Seq<char>, MockVal)> {
    let n = i as nat;
    seq![
        ("sku"@, MockVal::Str("SKU-"@ + decimal(88421 + n) + "-BLK-M"@)),
        ("name"@, MockVal::Str(pick(seq!["Linen Shirt"@, "Field Jacket"@, "Canvas Sneakers"@, "Wool Coat"@, "Leather Belt"@], n))),
        ("price"@, MockVal::Int(49 + (i as i64) * 20)),
        ("inStock"@, MockVal::Bool(n % 3 != 0)),
    ]
}

/// The fields after `_id` of document `n` of `users`.
pub open spec fn users_fields(i: usize, total_bits: u64) -> Seq<(Seq<char>, MockVal)> {
    let n = i as nat;
    seq![
        ("email"@, MockVal::Str("user"@ + decimal(1000 + n) + "@example.com"@)),
        ("name"@, MockVal::Str("User "@ + decimal(1000 + n))),
        ("role"@, MockVal::Str(if n % 10 == 0 { "admin"@ } else { "customer"@ })),
        ("createdAt"@, MockVal::Date("2025-0"@ + decimal(1 + n % 9) + "T00:00:00Z"@)),
    ]
}

/// The fields after `_id` of document `n` of `carts`.
pub open spec fn carts_fields(i: usize, total_bits: u64) -> Seq<(Seq<char>, MockVal)> {
    let n = i as nat;
    seq![
        ("userId"@, MockVal::Oid("65fe21c3a8b4e9c2d1f0"@ + hex_pad(100 + n, 4))),
        ("updatedAt"@, MockVal::Date("2026-04-24T"@ + decimal(10 + n % 14) + ":00:00Z"@)),
    ]
}

/// The fields after `_id` of document `n` of `sessions`.
pub open spec fn sessions_fields(i: usize, total_bits: u64) -> Seq<(Seq<char>, MockVal)> {
    let n = i as nat;
    seq![
        ("ip"@, MockVal::Str("192.168."@ + decimal(n % 256) + "."@ + decimal((n * 7) % 256))),
        ("expiresAt"@, MockVal::Date("2026-05-"@ + decimal(1 + n % 30) + "T00:00:00Z"@)),
    ]
}

/// The fields after `_id` of document `n` of `reviews`.
pub open spec fn reviews_fields(i: usize, total_bits: u64) -> Seq<(Seq<char>, MockVal)> {
    let n = i as nat;
    seq![
        ("productId"@, MockVal::Oid("66f"@ + hex_pad(n + 1, 2) + "b3a8c4e9d2f1e0"@ + hex_pad(n + 5, 2))),
        ("rating"@, MockVal::Int((1 + n % 5) as int)),
        ("body"@, MockVal::Str(pick(seq!["Great product!"@, "As expected"@, "Would recommend"@], n))),
    ]
}

/// The fields after `_id` of document `n` of `inventory`.
pub open spec fn inventory_fields(i: usize, total_bits: u64) -> Seq<(Seq<char>, MockVal)> {
    let n = i as nat;
    seq![
        ("sku"@, MockVal::Str("SKU-"@ + decimal(88421 + n) + "-BLK-M"@)),
        ("qty"@, MockVal::Int(100 + (i as i64) * 13)),
        ("warehouse"@, MockVal::Str(pick(seq!["east-1"@, "west-2"@, "central-3"@], n))),
    ]
}

/// The fields after `_id` of document `n` of `events`.
pub open spec fn events_fields(i: usize, total_bits: u64) -> Seq<(Seq<char>, MockVal)> {
    let n = i as nat;
    seq![
        ("type"@, MockVal::Str(pick(seq!["click"@, "view"@, "purchase"@, "add_to_cart"@], n))),
        ("ts"@, MockVal::Date("2026-04-24T"@ + decimal(14 + n % 10) + ":"@ + dec_pad(n % 60, 2) + ":08Z"@)),
    ]
}

/// The fields after `_id` of document `n` of any other collection.
pub open spec fn other_fields(i: usize, total_bits: u64) -> Seq<(Seq<char>, MockVal)> {
    let n = i as nat;
    seq![
        ("type"@, MockVal::Str("generic"@)),
        ("ts"@, MockVal::Date("2026-04-24T"@ + decimal(14 + n % 10) + ":22:08Z"@)),
    ]
}

/// The fields after `_id` of the document `i` of collection `coll`; an
/// order's total is the double of bit pattern `total_bits`.
pub open spec fn mock_rest(coll: Seq<char>, i: usize, total_bits: u64) -> Seq<(Seq<char>, MockVal)> {
    if coll == "orders"@ {
        orders_fields(i, total_bits)
    } else if coll == "products"@ {
        products_fields(i, total_bits)
    } else if coll == "users"@ {
        users_fields(i, total_bits)
    } else if coll == "carts"@ {
        carts_fields(i, total_bits)
    } else if coll == "sessions"@ {
        sessions_fields(i, total_bits)
    } else if coll == "reviews"@ {
        reviews_fields(i, total_bits)
    } else if coll == "inventory"@ {
        inventory_fields(i, total_bits)
    } else if coll == "events"@ {
        events_fields(i, total_bits)
    } else {
        other_fields(i, total_bits)
    }
}

/// The fields of the document `i` of collection `coll`: its `_id`, then
/// those of its collection.
pub open spec fn mock_fields(coll: Seq<char>, i: usize, total_bits: u64) -> Seq<(Seq<char>, MockVal)> {
    seq![("_id"@, MockVal::Oid(mock_id(i as nat)))] + mock_rest(coll, i, total_bits)
}

/// The sums and products the document `i` of `coll` computes stay in
/// their types.
pub open spec fn mock_fits(coll: Seq<char>, i: usize) -> bool {
    &&& i + 1 <= usize::MAX
    &&& coll == "products"@ ==> 88421 + i <= usize::MAX && i64::MIN <= (i as i64) * 20
        && 49 + (i as i64) * 20 <= i64::MAX
    &&& coll == "users"@ ==> 1000 + i <= usize::MAX
    &&& coll == "carts"@ ==> 100 + i <= usize::MAX
    &&& coll == "sessions"@ ==> i * 7 <= usize::MAX
    &&& coll == "reviews"@ ==> i + 5 <= usize::MAX
    &&& coll == "inventory"@ ==> 88421 + i <= usize::MAX && i64::MIN <= (i as i64) * 13
        && 100 + (i as i64) * 13 <= i64::MAX
}

/// The entries `e` hold the fields `fs` after their first one.
pub open spec fn shaped_after_id(e: Seq<(Seq<char>, BsonVal)>, fs: Seq<(Seq<char>, MockVal)>) -> bool {
    &&& e.len() == fs.len() + 1
    &&& forall|k: int| 0 <= k < fs.len() ==> (#[trigger] fs[k]).0 == e[k + 1].0 && holds(e[k + 1].1, fs[k].1)
}

/// Appends the hexadecimal digits of `n`.
fn push_hex_digits(out: &mut String, n: u64)
    ensures
        final(out)@ == old(out)@ + hex_digits(n as nat),
    decreases n,
{
    if n >= 16 {
        push_hex_digits(out, n / 16);
    }
    let d: u8 = (n % 16) as u8;
    let b: u8 = if d < 10 {
        d + 48
    } else {
        d + 87
    };
    let c = b as char;
    assert(c == hex_digit((n % 16) as nat));
    push_char(out, c);
    assert(out@ =~= old(out)@ + hex_digits(n as nat));
}

/// `d` padded with zeros in front to `w` characters.
fn pad_zeros(d: String, w: usize) -> (r: String)
    ensures
        r@ == zero_padded(d@, w as nat),
{
    let n = d.as_str().unicode_len();
    if n >= w {
        return d;
    }
    let mut out = String::new();
    let mut k: usize = 0;
    while k < w - n
        invariant
            n < w,
            n == d@.len(),
            0 <= k <= w - n,
            out@ == Seq::new(k as nat, |_i: int| '0'),
        decreases w - n - k,
    {
        push_char(&mut out, '0');
        assert(out@ =~= Seq::new((k + 1) as nat, |_i: int| '0'));
        k += 1;
    }
    concat(out.as_str(), d.as_str())
}

fn hex_padded(n: u64, w: usize) -> (r: String)
    ensures
        r@ == hex_pad(n as nat, w as nat),
{
    let mut s = String::new();
    push_hex_digits(&mut s, n);
    assert(s@ =~= hex_digits(n as nat));
    pad_zeros(s, w)
}

fn dec_padded(n: u64, w: usize) -> (r: String)
    ensures
        r@ == dec_pad(n as nat, w as nat),
{
    pad_zeros(decimal_string(n), w)
}

/// Sets a key that is not there yet, last.
fn put(d: &mut BsonDoc, k: &str, v: BsonVal)
    requires
        forall|j: int| 0 <= j < doc_entries(*old(d)).len() ==> (#[trigger] doc_entries(*old(d))[j]).0 != k@,
    ensures
        doc_entries(*final(d)) == doc_entries(*old(d)).push((k@, v)),
{
    let _ = d.insert(k.to_string(), v);
}

/// `a` then `b` then `c`.
fn cat3(a: &str, b: &str, c: &str) -> (r: String)
    ensures
        r@ == a@ + b@ + c@,
{
    concat(concat(a, b).as_str(), c)
}

fn fill_orders(d: &mut BsonDoc, i: usize, total_bits: u64)
    requires
        doc_entries(*old(d)).len() == 1,
        doc_entries(*old(d))[0].0 == "_id"@,
        mock_fits("orders"@, i),
    ensures
        doc_entries(*final(d))[0] == doc_entries(*old(d))[0],
        shaped_after_id(doc_entries(*final(d)), orders_fields(i, total_bits)),
{
    proof {
        reveal_strlit("_id");
        reveal_strlit("userId");
        reveal_strlit("total");
        reveal_strlit("status");
        reveal_strlit("createdAt");
    }
    let n = i as u64;
    assert(doc_entries(*d)[0].0 == "_id"@);
    assert("_id"@ != "userId"@) by {
        assert("_id"@.len() != "userId"@.len());
    }
    put(d, "userId", BsonVal::ObjectId("65fe21c3a8b4e9c2d1f04a12".to_string()));
    assert(doc_entries(*d)[0].0 == "_id"@);
    assert("_id"@ != "total"@) by {
        assert("_id"@.len() != "total"@.len());
    }
    assert(doc_entries(*d)[1].0 == "userId"@);
    assert("userId"@ != "total"@) by {
        assert("userId"@.len() != "total"@.len());
    }
    put(d, "total", BsonVal::Float(total_bits));
    let status = if i % 3 == 0 { "paid" } else if i % 3 == 1 { "pending" } else { "shipped" };
    assert(doc_entries(*d)[0].0 == "_id"@);
    assert("_id"@ != "status"@) by {
        assert("_id"@.len() != "status"@.len());
    }
    assert(doc_entries(*d)[1].0 == "userId"@);
    assert("userId"@ != "status"@) by {
        assert("userId"@[0] != "status"@[0]);
    }
    assert(doc_entries(*d)[2].0 == "total"@);
    assert("total"@ != "status"@) by {
        assert("total"@.len() != "status"@.len());
    }
    put(d, "status", BsonVal::Str(status.to_string()));
    let day = decimal_string(20 + n % 10);
    let min = dec_padded(12 + n % 48, 2);
    let date = cat3(cat3("2026-04-", day.as_str(), "T09:").as_str(), min.as_str(), ":41Z");
    assert(doc_entries(*d)[0].0 == "_id"@);
    assert("_id"@ != "createdAt"@) by {
        assert("_id"@.len() != "createdAt"@.len());
    }
    assert(doc_entries(*d)[1].0 == "userId"@);
    assert("userId"@ != "createdAt"@) by {
        assert("userId"@.len() != "createdAt"@.len());
    }
    assert(doc_entries(*d)[2].0 == "total"@);
    assert("total"@ != "createdAt"@) by {
        assert("total"@.len() != "createdAt"@.len());
    }
    assert(doc_entries(*d)[3].0 == "status"@);
    assert("status"@ != "createdAt"@) by {
        assert("status"@.len() != "createdAt"@.len());
    }
    put(d, "createdAt", BsonVal::IsoDate(date));
    let ghost fs = orders_fields(i, total_bits);
    assert(forall|k: int| 0 <= k < fs.len() ==> (#[trigger] fs[k]).0 == doc_entries(*d)[k + 1].0 && holds(doc_entries(*d)[k + 1].1, fs[k].1));
}

fn fill_products(d: &mut BsonDoc, i: usize, total_bits: u64)
    requires
        doc_entries(*old(d)).len() == 1,
        doc_entries(*old(d))[0].0 == "_id"@,
        mock_fits("products"@, i),
    ensures
        doc_entries(*final(d))[0] == doc_entries(*old(d))[0],
        shaped_after_id(doc_entries(*final(d)), products_fields(i, total_bits)),
{
    proof {
        reveal_strlit("_id");
        reveal_strlit("sku");
        reveal_strlit("name");
        reveal_strlit("price");
        reveal_strlit("inStock");
    }
    let n = i as u64;
    let sku = cat3("SKU-", decimal_string(88421 + n).as_str(), "-BLK-M");
    assert(doc_entries(*d)[0].0 == "_id"@);
    assert("_id"@ != "sku"@) by {
        assert("_id"@[0] != "sku"@[0]);
    }
    put(d, "sku", BsonVal::Str(sku));
    let name = if i % 5 == 0 { "Linen Shirt" } else if i % 5 == 1 { "Field Jacket" } else if i % 5 == 2 { "Canvas Sneakers" } else if i % 5 == 3 { "Wool Coat" } else { "Leather Belt" };
    assert(doc_entries(*d)[0].0 == "_id"@);
    assert("_id"@ != "name"@) by {
        assert("_id"@.len() != "name"@.len());
    }
    assert(doc_entries(*d)[1].0 == "sku"@);
    assert("sku"@ != "name"@) by {
        assert("sku"@.len() != "name"@.len());
    }
    put(d, "name", BsonVal::Str(name.to_string()));
    let price: i64 = 49 + (i as i64) * 20;
    assert(doc_entries(*d)[0].0 == "_id"@);
    assert("_id"@ != "price"@) by {
        assert("_id"@.len() != "price"@.len());
    }
    assert(doc_entries(*d)[1].0 == "sku"@);
    assert("sku"@ != "price"@) by {
        assert("sku"@.len() != "price"@.len());
    }
    assert(doc_entries(*d)[2].0 == "name"@);
    assert("name"@ != "price"@) by {
        assert("name"@.len() != "price"@.len());
    }
    put(d, "price", BsonVal::Int(price));
    assert(doc_entries(*d)[0].0 == "_id"@);
    assert("_id"@ != "inStock"@) by {
        assert("_id"@.len() != "inStock"@.len());
    }
    assert(doc_entries(*d)[1].0 == "sku"@);
    assert("sku"@ != "inStock"@) by {
        assert("sku"@.len() != "inStock"@.len());
    }
    assert(doc_entries(*d)[2].0 == "name"@);
    assert("name"@ != "inStock"@) by {
        assert("name"@.len() != "inStock"@.len());
    }
    assert(doc_entries(*d)[3].0 == "price"@);
    assert("price"@ != "inStock"@) by {
        assert("price"@.len() != "inStock"@.len());
    }
    put(d, "inStock", BsonVal::Bool(i % 3 != 0));
    let ghost fs = products_fields(i, total_bits);
    assert(forall|k: int| 0 <= k < fs.len() ==> (#[trigger] fs[k]).0 == doc_entries(*d)[k + 1].0 && holds(doc_entries(*d)[k + 1].1, fs[k].1));
}

fn fill_users(d: &mut BsonDoc, i: usize, total_bits: u64)
    requires
        doc_entries(*old(d)).len() == 1,
        doc_entries(*old(d))[0].0 == "_id"@,
        mock_fits("users"@, i),
    ensures
        doc_entries(*final(d))[0] == doc_entries(*old(d))[0],
        shaped_after_id(doc_entries(*final(d)), users_fields(i, total_bits)),
{
    proof {
        reveal_strlit("_id");
        reveal_strlit("email");
        reveal_strlit("name");
        reveal_strlit("role");
        reveal_strlit("createdAt");
    }
    let n = i as u64;
    let num = decimal_string(1000 + n);
    let email = cat3("user", num.as_str(), "@example.com");
    assert(doc_entries(*d)[0].0 == "_id"@);
    assert("_id"@ != "email"@) by {
        assert("_id"@.len() != "email"@.len());
    }
    put(d, "email", BsonVal::Str(email));
    assert(doc_entries(*d)[0].0 == "_id"@);
    assert("_id"@ != "name"@) by {
        assert("_id"@.len() != "name"@.len());
    }
    assert(doc_entries(*d)[1].0 == "email"@);
    assert("email"@ != "name"@) by {
        assert("email"@.len() != "name"@.len());
    }
    put(d, "name", BsonVal::Str(concat("User ", num.as_str())));
    let role = if i % 10 == 0 { "admin" } else { "customer" };
    assert(doc_entries(*d)[0].0 == "_id"@);
    assert("_id"@ != "role"@) by {
        assert("_id"@.len() != "role"@.len());
    }
    assert(doc_entries(*d)[1].0 == "email"@);
    assert("email"@ != "role"@) by {
        assert("email"@.len() != "role"@.len());
    }
    assert(doc_entries(*d)[2].0 == "name"@);
    assert("name"@ != "role"@) by {
        assert("name"@[0] != "role"@[0]);
    }
    put(d, "role", BsonVal::Str(role.to_string()));
    let date = cat3("2025-0", decimal_string(1 + n % 9).as_str(), "T00:00:00Z");
    assert(doc_entries(*d)[0].0 == "_id"@);
    assert("_id"@ != "createdAt"@) by {
        assert("_id"@.len() != "createdAt"@.len());
    }
    assert(doc_entries(*d)[1].0 == "email"@);
    assert("email"@ != "createdAt"@) by {
        assert("email"@.len() != "createdAt"@.len());
    }
    assert(doc_entries(*d)[2].0 == "name"@);
    assert("name"@ != "createdAt"@) by {
        assert("name"@.len() != "createdAt"@.len());
    }
    assert(doc_entries(*d)[3].0 == "role"@);
    assert("role"@ != "createdAt"@) by {
        assert("role"@.len() != "createdAt"@.len());
    }
    put(d, "createdAt", BsonVal::IsoDate(date));
    let ghost fs = users_fields(i, total_bits);
    assert(forall|k: int| 0 <= k < fs.len() ==> (#[trigger] fs[k]).0 == doc_entries(*d)[k + 1].0 && holds(doc_entries(*d)[k + 1].1, fs[k].1));
}

fn fill_carts(d: &mut BsonDoc, i: usize, total_bits: u64)
    requires
        doc_entries(*old(d)).len() == 1,
        doc_entries(*old(d))[0].0 == "_id"@,
        mock_fits("carts"@, i),
    ensures
        doc_entries(*final(d))[0] == doc_entries(*old(d))[0],
        shaped_after_id(doc_entries(*final(d)), carts_fields(i, total_bits)),
{
    proof {
        reveal_strlit("_id");
        reveal_strlit("userId");
        reveal_strlit("updatedAt");
    }
    let n = i as u64;
    let uid = concat("65fe21c3a8b4e9c2d1f0", hex_padded(100 + n, 4).as_str());
    assert(doc_entries(*d)[0].0 == "_id"@);
    assert("_id"@ != "userId"@) by {
        assert("_id"@.len() != "userId"@.len());
    }
    put(d, "userId", BsonVal::ObjectId(uid));
    let date = cat3("2026-04-24T", decimal_string(10 + n % 14).as_str(), ":00:00Z");
    assert(doc_entries(*d)[0].0 == "_id"@);
    assert("_id"@ != "updatedAt"@) by {
        assert("_id"@.len() != "updatedAt"@.len());
    }
    assert(doc_entries(*d)[1].0 == "userId"@);
    assert("userId"@ != "updatedAt"@) by {
        assert("userId"@.len() != "updatedAt"@.len());
    }
    put(d, "updatedAt", BsonVal::IsoDate(date));
    let ghost fs = carts_fields(i, total_bits);
    assert(forall|k: int| 0 <= k < fs.len() ==> (#[trigger] fs[k]).0 == doc_entries(*d)[k + 1].0 && holds(doc_entries(*d)[k + 1].1, fs[k].1));
}

fn fill_sessions(d: &mut BsonDoc, i: usize, total_bits: u64)
    requires
        doc_entries(*old(d)).len() == 1,
        doc_entries(*old(d))[0].0 == "_id"@,
        mock_fits("sessions"@, i),
    ensures
        doc_entries(*final(d))[0] == doc_entries(*old(d))[0],
        shaped_after_id(doc_entries(*final(d)), sessions_fields(i, total_bits)),
{
    proof {
        reveal_strlit("_id");
        reveal_strlit("ip");
        reveal_strlit("expiresAt");
    }
    let n = i as u64;
    let ip = cat3(concat("192.168.", decimal_string(n % 256).as_str()).as_str(), ".", decimal_string((n * 7) % 256).as_str());
    assert(doc_entries(*d)[0].0 == "_id"@);
    assert("_id"@ != "ip"@) by {
        assert("_id"@.len() != "ip"@.len());
    }
    put(d, "ip", BsonVal::Str(ip));
    let date = cat3("2026-05-", decimal_string(1 + n % 30).as_str(), "T00:00:00Z");
    assert(doc_entries(*d)[0].0 == "_id"@);
    assert("_id"@ != "expiresAt"@) by {
        assert("_id"@.len() != "expiresAt"@.len());
    }
    assert(doc_entries(*d)[1].0 == "ip"@);
    assert("ip"@ != "expiresAt"@) by {
        assert("ip"@.len() != "expiresAt"@.len());
    }
    put(d, "expiresAt", BsonVal::IsoDate(date));
    let ghost fs = sessions_fields(i, total_bits);
    assert(forall|k: int| 0 <= k < fs.len() ==> (#[trigger] fs[k]).0 == doc_entries(*d)[k + 1].0 && holds(doc_entries(*d)[k + 1].1, fs[k].1));
}

fn fill_reviews(d: &mut BsonDoc, i: usize, total_bits: u64)
    requires
        doc_entries(*old(d)).len() == 1,
        doc_entries(*old(d))[0].0 == "_id"@,
        mock_fits("reviews"@, i),
    ensures
        doc_entries(*final(d))[0] == doc_entries(*old(d))[0],
        shaped_after_id(doc_entries(*final(d)), reviews_fields(i, total_bits)),
{
    proof {
        reveal_strlit("_id");
        reveal_strlit("productId");
        reveal_strlit("rating");
        reveal_strlit("body");
    }
    let n = i as u64;
    let pid = cat3(concat("66f", hex_padded(n + 1, 2).as_str()).as_str(), "b3a8c4e9d2f1e0", hex_padded(n + 5, 2).as_str());
    assert(doc_entries(*d)[0].0 == "_id"@);
    assert("_id"@ != "productId"@) by {
        assert("_id"@.len() != "productId"@.len());
    }
    put(d, "productId", BsonVal::ObjectId(pid));
    let rating: i64 = 1 + (i % 5) as i64;
    assert(doc_entries(*d)[0].0 == "_id"@);
    assert("_id"@ != "rating"@) by {
        assert("_id"@.len() != "rating"@.len());
    }
    assert(doc_entries(*d)[1].0 == "productId"@);
    assert("productId"@ != "rating"@) by {
        assert("productId"@.len() != "rating"@.len());
    }
    put(d, "rating", BsonVal::Int(rating));
    let body = if i % 3 == 0 { "Great product!" } else if i % 3 == 1 { "As expected" } else { "Would recommend" };
    assert(doc_entries(*d)[0].0 == "_id"@);
    assert("_id"@ != "body"@) by {
        assert("_id"@.len() != "body"@.len());
    }
    assert(doc_entries(*d)[1].0 == "productId"@);
    assert("productId"@ != "body"@) by {
        assert("productId"@.len() != "body"@.len());
    }
    assert(doc_entries(*d)[2].0 == "rating"@);
    assert("rating"@ != "body"@) by {
        assert("rating"@.len() != "body"@.len());
    }
    put(d, "body", BsonVal::Str(body.to_string()));
    let ghost fs = reviews_fields(i, total_bits);
    assert(forall|k: int| 0 <= k < fs.len() ==> (#[trigger] fs[k]).0 == doc_entries(*d)[k + 1].0 && holds(doc_entries(*d)[k + 1].1, fs[k].1));
}

fn fill_inventory(d: &mut BsonDoc, i: usize, total_bits: u64)
    requires
        doc_entries(*old(d)).len() == 1,
        doc_entries(*old(d))[0].0 == "_id"@,
        mock_fits("inventory"@, i),
    ensures
        doc_entries(*final(d))[0] == doc_entries(*old(d))[0],
        shaped_after_id(doc_entries(*final(d)), inventory_fields(i, total_bits)),
{
    proof {
        reveal_strlit("_id");
        reveal_strlit("sku");
        reveal_strlit("qty");
        reveal_strlit("warehouse");
    }
    let n = i as u64;
    let sku = cat3("SKU-", decimal_string(88421 + n).as_str(), "-BLK-M");
    assert(doc_entries(*d)[0].0 == "_id"@);
    assert("_id"@ != "sku"@) by {
        assert("_id"@[0] != "sku"@[0]);
    }
    put(d, "sku", BsonVal::Str(sku));
    let qty: i64 = 100 + (i as i64) * 13;
    assert(doc_entries(*d)[0].0 == "_id"@);
    assert("_id"@ != "qty"@) by {
        assert("_id"@[0] != "qty"@[0]);
    }
    assert(doc_entries(*d)[1].0 == "sku"@);
    assert("sku"@ != "qty"@) by {
        assert("sku"@[0] != "qty"@[0]);
    }
    put(d, "qty", BsonVal::Int(qty));
    let wh = if i % 3 == 0 { "east-1" } else if i % 3 == 1 { "west-2" } else { "central-3" };
    assert(doc_entries(*d)[0].0 == "_id"@);
    assert("_id"@ != "warehouse"@) by {
        assert("_id"@.len() != "warehouse"@.len());
    }
    assert(doc_entries(*d)[1].0 == "sku"@);
    assert("sku"@ != "warehouse"@) by {
        assert("sku"@.len() != "warehouse"@.len());
    }
    assert(doc_entries(*d)[2].0 == "qty"@);
    assert("qty"@ != "warehouse"@) by {
        assert("qty"@.len() != "warehouse"@.len());
    }
    put(d, "warehouse", BsonVal::Str(wh.to_string()));
    let ghost fs = inventory_fields(i, total_bits);
    assert(forall|k: int| 0 <= k < fs.len() ==> (#[trigger] fs[k]).0 == doc_entries(*d)[k + 1].0 && holds(doc_entries(*d)[k + 1].1, fs[k].1));
}

fn fill_events(d: &mut BsonDoc, i: usize, total_bits: u64)
    requires
        doc_entries(*old(d)).len() == 1,
        doc_entries(*old(d))[0].0 == "_id"@,
        mock_fits("events"@, i),
    ensures
        doc_entries(*final(d))[0] == doc_entries(*old(d))[0],
        shaped_after_id(doc_entries(*final(d)), events_fields(i, total_bits)),
{
    proof {
        reveal_strlit("_id");
        reveal_strlit("type");
        reveal_strlit("ts");
    }
    let n = i as u64;
    let t = if i % 4 == 0 { "click" } else if i % 4 == 1 { "view" } else if i % 4 == 2 { "purchase" } else { "add_to_cart" };
    assert(doc_entries(*d)[0].0 == "_id"@);
    assert("_id"@ != "type"@) by {
        assert("_id"@.len() != "type"@.len());
    }
    put(d, "type", BsonVal::Str(t.to_string()));
    let ts = cat3(cat3("2026-04-24T", decimal_string(14 + n % 10).as_str(), ":").as_str(), dec_padded(n % 60, 2).as_str(), ":08Z");
    assert(doc_entries(*d)[0].0 == "_id"@);
    assert("_id"@ != "ts"@) by {
        assert("_id"@.len() != "ts"@.len());
    }
    assert(doc_entries(*d)[1].0 == "type"@);
    assert("type"@ != "ts"@) by {
        assert("type"@.len() != "ts"@.len());
    }
    put(d, "ts", BsonVal::IsoDate(ts));
    let ghost fs = events_fields(i, total_bits);
    assert(forall|k: int| 0 <= k < fs.len() ==> (#[trigger] fs[k]).0 == doc_entries(*d)[k + 1].0 && holds(doc_entries(*d)[k + 1].1, fs[k].1));
}

fn fill_other(d: &mut BsonDoc, i: usize, total_bits: u64)
    requires
        doc_entries(*old(d)).len() == 1,
        doc_entries(*old(d))[0].0 == "_id"@,
    ensures
        doc_entries(*final(d))[0] == doc_entries(*old(d))[0],
        shaped_after_id(doc_entries(*final(d)), other_fields(i, total_bits)),
{
    proof {
        reveal_strlit("_id");
        reveal_strlit("type");
        reveal_strlit("ts");
    }
    let n = i as u64;
    assert(doc_entries(*d)[0].0 == "_id"@);
    assert("_id"@ != "type"@) by {
        assert("_id"@.len() != "type"@.len());
    }
    put(d, "type", BsonVal::Str("generic".to_string()));
    let ts = cat3("2026-04-24T", decimal_string(14 + n % 10).as_str(), ":22:08Z");
    assert(doc_entries(*d)[0].0 == "_id"@);
    assert("_id"@ != "ts"@) by {
        assert("_id"@.len() != "ts"@.len());
    }
    assert(doc_entries(*d)[1].0 == "type"@);
    assert("type"@ != "ts"@) by {
        assert("type"@.len() != "ts"@.len());
    }
    put(d, "ts", BsonVal::IsoDate(ts));
    let ghost fs = other_fields(i, total_bits);
    assert(forall|k: int| 0 <= k < fs.len() ==> (#[trigger] fs[k]).0 == doc_entries(*d)[k + 1].0 && holds(doc_entries(*d)[k + 1].1, fs[k].1));
}

/// The document `i` of collection `coll`, for a read of it; an order's
/// total is the double of bit pattern `total_bits`.
pub fn make_doc(coll: &str, i: usize, total_bits: u64) -> (r: BsonDoc)
    requires
        mock_fits(coll@, i),
    ensures
        shaped(doc_entries(r), mock_fields(coll@, i, total_bits)),
{
    proof {
        reveal_strlit("_id");
    }
    let n = i as u64;
    let h = hex_padded(n + 1, 2);
    let id = cat3(concat("66f", h.as_str()).as_str(), "c4a8b4e9c2d1f0", h.as_str());
    let mut d = BsonDoc::new();
    put(&mut d, "_id", BsonVal::ObjectId(id));

    if str_eq(coll, "orders") {
        fill_orders(&mut d, i, total_bits);
    } else if str_eq(coll, "products") {
        fill_products(&mut d, i, total_bits);
    } else if str_eq(coll, "users") {
        fill_users(&mut d, i, total_bits);
    } else if str_eq(coll, "carts") {
        fill_carts(&mut d, i, total_bits);
    } else if str_eq(coll, "sessions") {
        fill_sessions(&mut d, i, total_bits);
    } else if str_eq(coll, "reviews") {
        fill_reviews(&mut d, i, total_bits);
    } else if str_eq(coll, "inventory") {
        fill_inventory(&mut d, i, total_bits);
    } else if str_eq(coll, "events") {
        fill_events(&mut d, i, total_bits);
    } else {
        fill_other(&mut d, i, total_bits);
    }
    let ghost fs = mock_fields(coll@, i, total_bits);
    let ghost rest = mock_rest(coll@, i, total_bits);
    assert(fs[0] == ("_id"@, MockVal::Oid(mock_id(i as nat))));
    assert forall|k: int| 0 <= k < doc_entries(d).len() implies (#[trigger] doc_entries(d)[k]).0 == fs[k].0 && holds(doc_entries(d)[k].1, fs[k].1) by {
        if k > 0 {
            assert(fs[k] == rest[k - 1]);
        }
    }
    d
}

/// How many documents a read of `n` returns: at most five.
pub open spec fn docs_returned(op: Op, n: usize) -> nat {
    if op_is_read(op) {
        if n < 5 {
            n as nat
        } else {
            5
        }
    } else {
        0
    }
}

/// The documents a request `op` on `coll` that returned `n` documents
/// gets back: for a read, the first (at most five) made-up documents of
/// the collection, document `i` of an order having the total of bit
/// pattern `total_bits[i]`; nothing for a write.
pub fn gen_response_docs(coll: &str, op: &Op, n: usize, total_bits: &Vec<u64>) -> (r: Vec<BsonDoc>)
    requires
        total_bits@.len() >= docs_returned(*op, n),
    ensures
        r@.len() == docs_returned(*op, n),
        forall|k: int|
            0 <= k < r@.len() ==> shaped(
                doc_entries(#[trigger] r@[k]),
                mock_fields(coll@, k as usize, total_bits@[k]),
            ),
{
    let mut out: Vec<BsonDoc> = Vec::new();
    if !op.is_read() {
        return out;
    }
    let count = if n < 5 {
        n
    } else {
        5
    };
    let mut i: usize = 0;
    while i < count
        invariant
            count == docs_returned(*op, n),
            count <= 5,
            total_bits@.len() >= count,
            0 <= i <= count,
            out@.len() == i,
            forall|k: int|
                0 <= k < i ==> shaped(
                    doc_entries(#[trigger] out@[k]),
                    mock_fields(coll@, k as usize, total_bits@[k]),
                ),
        decreases count - i,
    {
        let d = make_doc(coll, i, total_bits[i]);
        out.push(d);
        i += 1;
    }
    out
}

} // verus!
