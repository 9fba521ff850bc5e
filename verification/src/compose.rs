//! The shell query the compose tab starts from: the selected request
//! written back as a `db.<coll>.<method>(...)` call.
//!
//! The text comes as pieces: literal text, and doubles that the window
//! writes with two decimals.

use vstd::prelude::*;
use crate::bson::{doc_entries, BsonDoc, BsonVal};
use crate::model::{Op, QueryEntry};
use crate::text::{concat, decimal, push_decimal};

verus! {

/// A piece of the compose text.
pub enum ComposePiece {
    Text(String),
    /// A double, by its bit pattern, to be written with two decimals.
    Float(u64),
}

/// What a piece stands for.
pub enum Piece {
    Text(Seq<char>),
    Float(u64),
}

impl View for ComposePiece {
    type V = Piece;

    open spec fn view(&self) -> Piece {
        match self {
            ComposePiece::Text(s) => Piece::Text(s@),
            ComposePiece::Float(b) => Piece::Float(*b),
        }
    }
}

/// What a sequence of pieces stands for.
pub open spec fn pieces(v: Seq<ComposePiece>) -> Seq<Piece> {
    v.map_values(|p: ComposePiece| p@)
}

/// `n` as `i64::to_string` writes it.
pub open spec fn signed_decimal(n: int) -> Seq<char> {
    if n < 0 {
        "-"@ + decimal((-n) as nat)
    } else {
        decimal(n as nat)
    }
}

/// How a filter value is written: strings quoted, numbers and booleans
/// plain, ids and dates in their shell constructors, anything else as a
/// quoted ellipsis.
pub open spec fn value_pieces(v: BsonVal) -> Seq<Piece> {
    match v {
        BsonVal::Str(s) => seq![Piece::Text("\""@ + s@ + "\""@)],
        BsonVal::Int(n) => seq![Piece::Text(signed_decimal(n as int))],
        BsonVal::Float(b) => seq![Piece::Float(b)],
        BsonVal::Bool(b) => seq![
            Piece::Text(
                if b {
                    "true"@
                } else {
                    "false"@
                },
            ),
        ],
        BsonVal::ObjectId(s) => seq![Piece::Text("ObjectId(\""@ + s@ + "\")"@)],
        BsonVal::IsoDate(s) => seq![Piece::Text("ISODate(\""@ + s@ + "\")"@)],
        BsonVal::Null => seq![Piece::Text("null"@)],
        _ => seq![Piece::Text("\"…\""@)],
    }
}

/// One line of a filter: the key quoted, then its value.
pub open spec fn pair_pieces(p: (Seq<char>, BsonVal)) -> Seq<Piece> {
    seq![Piece::Text("  \""@ + p.0 + "\": "@)] + value_pieces(p.1)
}

/// The parts joined, with the text `sep` between two parts.
pub open spec fn joined_pieces(parts: Seq<Seq<Piece>>, sep: Seq<char>) -> Seq<Piece>
    decreases parts.len(),
{
    if parts.len() == 0 {
        Seq::empty()
    } else if parts.len() == 1 {
        parts[0]
    } else {
        joined_pieces(parts.drop_last(), sep) + seq![Piece::Text(sep)] + parts.last()
    }
}

/// A filter written as a document, one key per line; `{}` without one.
pub open spec fn filter_pieces(f: Option<BsonDoc>) -> Seq<Piece> {
    match f {
        Some(d) => seq![Piece::Text("{\n"@)] + joined_pieces(
            doc_entries(d).map_values(|p: (Seq<char>, BsonVal)| pair_pieces(p)),
            ",\n"@,
        ) + seq![Piece::Text("\n}"@)],
        None => seq![Piece::Text("{}"@)],
    }
}

/// The first key of a stage, empty for an empty stage.
pub open spec fn stage_key(d: BsonDoc) -> Seq<char> {
    if doc_entries(d).len() > 0 {
        doc_entries(d)[0].0
    } else {
        Seq::empty()
    }
}

/// The text of one line per stage, `{ <operator>: {} }`.
pub open spec fn stage_line(d: BsonDoc) -> Seq<char> {
    "  { "@ + stage_key(d) + ": {} }"@
}

/// A pipeline written with one stage a line; `[]` without one.
pub open spec fn stages_text(p: Option<Seq<BsonDoc>>) -> Seq<char> {
    match p {
        Some(s) => "[\n"@ + crate::text::joined(s.map_values(|d: BsonDoc| stage_line(d)), ",\n"@)
            + "\n]"@,
        None => "[]"@,
    }
}

/// The query the compose tab starts from for `e`: finds and counts with
/// their filter, aggregations with their stages, and a plain find of
/// the collection for anything else.
pub open spec fn compose_pieces(e: QueryEntry) -> Seq<Piece> {
    let head = "db."@ + e.coll@;
    match e.op {
        Op::Find => seq![Piece::Text(head + ".find(\n"@)] + filter_pieces(e.filter) + seq![
            Piece::Text("\n)"@),
        ],
        Op::FindOne => seq![Piece::Text(head + ".findOne(\n"@)] + filter_pieces(e.filter) + seq![
            Piece::Text("\n)"@),
        ],
        Op::Aggregate => seq![
            Piece::Text(
                head + ".aggregate(\n"@ + stages_text(
                    match e.pipeline {
                        Some(p) => Some(p@),
                        None => None,
                    },
                ) + "\n)"@,
            ),
        ],
        Op::CountDocuments => seq![Piece::Text(head + ".countDocuments(\n"@)] + filter_pieces(
            e.filter,
        ) + seq![Piece::Text("\n)"@)],
        _ => seq![Piece::Text(head + ".find({})"@)],
    }
}

/// Appends the text of `n` as `i64::to_string` writes it.
fn push_signed(out: &mut String, n: i64)
    ensures
        final(out)@ == old(out)@ + signed_decimal(n as int),
{
    if n < 0 {
        proof {
            reveal_strlit("-");
        }
        crate::text::push_char(out, '-');
        let m: u64 = ((-(n + 1)) as u64) + 1;
        push_decimal(out, m);
        assert(out@ =~= old(out)@ + signed_decimal(n as int));
    } else {
        push_decimal(out, n as u64);
    }
}

/// Appends the pieces of a filter value.
fn push_value(out: &mut Vec<ComposePiece>, v: &BsonVal)
    ensures
        pieces(final(out)@) == pieces(old(out)@) + value_pieces(*v),
{
    let ghost before = out@;
    let p = match v {
        BsonVal::Str(s) => ComposePiece::Text(concat(concat("\"", s.as_str()).as_str(), "\"")),
        BsonVal::Int(n) => {
            let mut t = String::new();
            push_signed(&mut t, *n);
            assert(t@ =~= signed_decimal(*n as int));
            ComposePiece::Text(t)
        },
        BsonVal::Float(b) => ComposePiece::Float(*b),
        BsonVal::Bool(b) => ComposePiece::Text(
            if *b {
                "true".to_string()
            } else {
                "false".to_string()
            },
        ),
        BsonVal::ObjectId(s) => ComposePiece::Text(
            concat(concat("ObjectId(\"", s.as_str()).as_str(), "\")"),
        ),
        BsonVal::IsoDate(s) => ComposePiece::Text(
            concat(concat("ISODate(\"", s.as_str()).as_str(), "\")"),
        ),
        BsonVal::Null => ComposePiece::Text("null".to_string()),
        _ => ComposePiece::Text("\"…\"".to_string()),
    };
    assert(seq![p@] =~= value_pieces(*v));
    out.push(p);
    assert(pieces(out@) =~= pieces(before) + seq![p@]);
}

/// Appends the pieces of a filter.
fn push_filter(out: &mut Vec<ComposePiece>, f: &Option<BsonDoc>)
    ensures
        pieces(final(out)@) == pieces(old(out)@) + filter_pieces(*f),
{
    let d = match f {
        Some(d) => d,
        None => {
            let ghost before = out@;
            out.push(ComposePiece::Text("{}".to_string()));
            assert(pieces(out@) =~= pieces(before) + seq![Piece::Text("{}"@)]);
            return;
        },
    };
    let ghost start = out@;
    let ghost parts = doc_entries(*d).map_values(|p: (Seq<char>, BsonVal)| pair_pieces(p));
    out.push(ComposePiece::Text("{\n".to_string()));
    assert(pieces(out@) =~= pieces(start) + seq![Piece::Text("{\n"@)]);
    let n = d.len();
    let mut i: usize = 0;
    while i < n
        invariant
            n == doc_entries(*d).len(),
            parts == doc_entries(*d).map_values(|p: (Seq<char>, BsonVal)| pair_pieces(p)),
            0 <= i <= n,
            pieces(out@) == pieces(start) + seq![Piece::Text("{\n"@)] + joined_pieces(
                parts.take(i as int),
                ",\n"@,
            ),
        decreases n - i,
    {
        let ghost before = out@;
        assert(parts.take(i + 1).drop_last() =~= parts.take(i as int));
        if i > 0 {
            out.push(ComposePiece::Text(",\n".to_string()));
        }
        match d.get_index(i) {
            Some((k, v)) => {
                let ghost mid = out@;
                let head = concat(concat("  \"", k.as_str()).as_str(), "\": ");
                out.push(ComposePiece::Text(head));
                push_value(out, v);
                assert(parts[i as int] == pair_pieces((k@, *v)));
                assert(pieces(out@) =~= pieces(mid) + parts[i as int]);
            },
            None => {},
        }
        assert(parts.take(i + 1).last() == parts[i as int]);
        if i > 0 {
            assert(pieces(out@) =~= pieces(before) + seq![Piece::Text(",\n"@)] + parts[i as int]);
        } else {
            assert(parts.take(1) =~= seq![parts[0]]);
            assert(pieces(out@) =~= pieces(before) + parts[i as int]);
        }
        i += 1;
    }
    assert(parts.take(n as int) =~= parts);
    let ghost before_close = out@;
    out.push(ComposePiece::Text("\n}".to_string()));
    assert(pieces(out@) =~= pieces(before_close) + seq![Piece::Text("\n}"@)]);
}

/// The text of a pipeline, one stage a line.
fn stages_string(p: &Option<Vec<BsonDoc>>) -> (r: String)
    ensures
        r@ == stages_text(
            match *p {
                Some(v) => Some(v@),
                None => None,
            },
        ),
{
    let v = match p {
        Some(v) => v,
        None => {
            return "[]".to_string();
        },
    };
    let ghost lines = v@.map_values(|d: BsonDoc| stage_line(d));
    let mut parts: Vec<String> = Vec::new();
    let mut i: usize = 0;
    while i < v.len()
        invariant
            lines == v@.map_values(|d: BsonDoc| stage_line(d)),
            0 <= i <= v@.len(),
            crate::text::strs(parts@) == lines.take(i as int),
        decreases v@.len() - i,
    {
        let key = match v[i].get_index(0) {
            Some((k, _)) => k.clone(),
            None => String::new(),
        };
        assert(key@ == stage_key(v@[i as int]));
        let line = concat(concat("  { ", key.as_str()).as_str(), ": {} }");
        let ghost before = parts@;
        parts.push(line);
        assert(crate::text::strs(parts@) =~= crate::text::strs(before).push(line@));
        assert(crate::text::strs(parts@) =~= lines.take(i + 1));
        i += 1;
    }
    assert(lines.take(v@.len() as int) =~= lines);
    let body = crate::text::join_with(&parts, ",\n");
    concat(concat("[\n", body.as_str()).as_str(), "\n]")
}

/// The query the compose tab starts from for `e`.
pub fn compose_query(e: &QueryEntry) -> (r: Vec<ComposePiece>)
    ensures
        pieces(r@) == compose_pieces(*e),
{
    let head = concat("db.", e.coll.as_str());
    let mut out: Vec<ComposePiece> = Vec::new();
    match &e.op {
        Op::Find | Op::FindOne | Op::CountDocuments => {
            let call = match &e.op {
                Op::Find => ".find(\n",
                Op::FindOne => ".findOne(\n",
                _ => ".countDocuments(\n",
            };
            out.push(ComposePiece::Text(concat(head.as_str(), call)));
            push_filter(&mut out, &e.filter);
            let ghost before = out@;
            out.push(ComposePiece::Text("\n)".to_string()));
            assert(pieces(out@) =~= pieces(before) + seq![Piece::Text("\n)"@)]);
        },
        Op::Aggregate => {
            let stages = stages_string(&e.pipeline);
            let call = concat(concat(head.as_str(), ".aggregate(\n").as_str(), stages.as_str());
            out.push(ComposePiece::Text(concat(call.as_str(), "\n)")));
        },
        _ => {
            out.push(ComposePiece::Text(concat(head.as_str(), ".find({})")));
        },
    }
    assert(pieces(out@) =~= compose_pieces(*e));
    out
}

} // verus!
