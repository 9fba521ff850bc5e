//! What the intercept layer keeps of each request while its reply is on
//! the way, and how it reads requests and replies.

use vstd::prelude::*;
use crate::bson::{doc_get, BsonDoc, BsonVal};
use crate::command::{collection_key_of, command_named, is_handshake_cmd, MongoCommand};
use crate::text::{ascii_lower, to_ascii_lowercase};

verus! {

/// A request seen on the wire, kept until its explain event or reply.
pub struct PendingEntry {
    pub filter: Option<BsonDoc>,
    pub pipeline: Option<Vec<BsonDoc>>,
    pub update: Option<BsonDoc>,
    pub doc: Option<BsonDoc>,
    pub response_docs: Vec<BsonDoc>,
    pub start_ms: u64,
    pub db: String,
    pub coll: String,
    pub command: MongoCommand,
}

/// Entry emitted directly from the intercept layer when a response arrives.
/// Carries enough data to construct a QueryEntry without waiting for an ExplainEvent.
pub struct DirectEntry {
    pub request_id: i32,
    pub command: MongoCommand,
    pub db: String,
    pub coll: String,
    pub start_ms: u64,
    pub latency_ms: u32,
    pub filter: Option<BsonDoc>,
    pub pipeline: Option<Vec<BsonDoc>>,
    pub update: Option<BsonDoc>,
    pub doc: Option<BsonDoc>,
    pub app_name: Option<String>,
}

/// A section of an `OP_MSG` message.
pub enum MsgSection {
    Body(BsonDoc),
    DocumentSequence { identifier: String, documents: Vec<BsonDoc> },
}

/// The operation a wire message carries, as far as requests and replies
/// are read here.
pub enum WireOperation {
    /// `OP_MSG`, with its sections.
    Message(Vec<MsgSection>),
    /// Legacy `OP_QUERY`, with its query document.
    Query(BsonDoc),
    /// Legacy `OP_REPLY`, with its documents.
    Reply(Vec<BsonDoc>),
    /// Any other operation.
    Other,
}

/// The document under `k` in `d`, when it is a document.
pub open spec fn field_doc(d: BsonDoc, k: Seq<char>) -> Option<BsonDoc> {
    match doc_get(d, k) {
        Some(BsonVal::Doc(x)) => Some(x),
        _ => None,
    }
}

/// The text under `k` in `d`, when it is a string.
pub open spec fn field_str(d: BsonDoc, k: Seq<char>) -> Option<Seq<char>> {
    match doc_get(d, k) {
        Some(BsonVal::Str(x)) => Some(x@),
        _ => None,
    }
}

/// The items under `k` in `d`, when it is an array.
pub open spec fn field_array(d: BsonDoc, k: Seq<char>) -> Option<Seq<BsonVal>> {
    match doc_get(d, k) {
        Some(BsonVal::Array(x)) => Some(x@),
        _ => None,
    }
}

/// The documents among `vals`, in order.
pub open spec fn docs_in(vals: Seq<BsonVal>) -> Seq<BsonDoc>
    decreases vals.len(),
{
    if vals.len() == 0 {
        Seq::empty()
    } else {
        docs_in(vals.drop_last()) + match vals.last() {
            BsonVal::Doc(d) => seq![d],
            _ => Seq::empty(),
        }
    }
}

/// The first of `vals`, when there is one and it is a document.
pub open spec fn first_doc(vals: Seq<BsonVal>) -> Option<BsonDoc> {
    if vals.len() > 0 && vals[0] is Doc {
        Some(vals[0]->Doc_0)
    } else {
        None
    }
}

/// The view of an optional string.
pub open spec fn opt_view(o: Option<String>) -> Option<Seq<char>> {
    match o {
        Some(s) => Some(s@),
        None => None,
    }
}

fn get_doc(d: &BsonDoc, key: &str) -> (r: Option<BsonDoc>)
    ensures
        r == field_doc(*d, key@),
{
    match d.get(key) {
        Some(BsonVal::Doc(x)) => Some(x.clone()),
        _ => None,
    }
}

fn get_str(d: &BsonDoc, key: &str) -> (r: Option<String>)
    ensures
        opt_view(r) == field_str(*d, key@),
{
    match d.get(key) {
        Some(BsonVal::Str(x)) => Some(x.clone()),
        _ => None,
    }
}

fn get_array<'a>(d: &'a BsonDoc, key: &str) -> (r: Option<&'a Vec<BsonVal>>)
    ensures
        match r {
            Some(a) => field_array(*d, key@) == Some(a@),
            None => field_array(*d, key@) is None,
        },
{
    match d.get(key) {
        Some(BsonVal::Array(x)) => Some(x),
        _ => None,
    }
}

fn docs_of(vals: &Vec<BsonVal>) -> (r: Vec<BsonDoc>)
    ensures
        r@ == docs_in(vals@),
{
    let mut out: Vec<BsonDoc> = Vec::new();
    let mut i: usize = 0;
    while i < vals.len()
        invariant
            0 <= i <= vals@.len(),
            out@ == docs_in(vals@.take(i as int)),
        decreases vals.len() - i,
    {
        let ghost t = vals@.take(i + 1);
        assert(t.drop_last() =~= vals@.take(i as int));
        match &vals[i] {
            BsonVal::Doc(d) => {
                out.push(d.copy());
            },
            _ => {},
        }
        assert(out@ =~= docs_in(t));
        i += 1;
    }
    assert(vals@.take(vals@.len() as int) =~= vals@);
    out
}

fn first_doc_of(vals: &Vec<BsonVal>) -> (r: Option<BsonDoc>)
    ensures
        r == first_doc(vals@),
{
    if vals.len() > 0 {
        match &vals[0] {
            BsonVal::Doc(d) => Some(d.copy()),
            _ => None,
        }
    } else {
        None
    }
}

/// The first body section among `ss[i..]`.
pub open spec fn first_body(ss: Seq<MsgSection>, i: int) -> Option<BsonDoc>
    decreases ss.len() - i,
{
    if 0 <= i < ss.len() {
        match ss[i] {
            MsgSection::Body(d) => Some(d),
            _ => first_body(ss, i + 1),
        }
    } else {
        None
    }
}

/// The command document of a request: the body of an `OP_MSG`, or the
/// query of an `OP_QUERY`.
pub open spec fn msg_body(op: WireOperation) -> Option<BsonDoc> {
    match op {
        WireOperation::Message(ss) => first_body(ss@, 0),
        WireOperation::Query(q) => Some(q),
        _ => None,
    }
}

fn op_msg_body(op: &WireOperation) -> (r: Option<&BsonDoc>)
    ensures
        match r {
            Some(b) => msg_body(*op) == Some(*b),
            None => msg_body(*op) is None,
        },
{
    match op {
        WireOperation::Message(sections) => {
            let mut i: usize = 0;
            while i < sections.len()
                invariant
                    *op == WireOperation::Message(*sections),
                    0 <= i <= sections@.len(),
                    first_body(sections@, 0) == first_body(sections@, i as int),
                decreases sections.len() - i,
            {
                match &sections[i] {
                    MsgSection::Body(d) => {
                        return Some(d);
                    },
                    _ => {},
                }
                i += 1;
            }
            None
        },
        WireOperation::Query(q) => Some(q),
        _ => None,
    }
}

/// The application name a handshake gives under `client.application.name`.
pub open spec fn app_name_in(op: WireOperation) -> Option<Seq<char>> {
    match msg_body(op) {
        Some(b) => match field_doc(b, "client"@) {
            Some(c) => match field_doc(c, "application"@) {
                Some(a) => field_str(a, "name"@),
                None => None,
            },
            None => None,
        },
        None => None,
    }
}

pub fn extract_app_name(operation: &WireOperation) -> (r: Option<String>)
    ensures
        opt_view(r) == app_name_in(*operation),
{
    let body = match op_msg_body(operation) {
        Some(b) => b,
        None => {
            return None;
        },
    };
    let client = match get_doc(body, "client") {
        Some(c) => c,
        None => {
            return None;
        },
    };
    let application = match get_doc(&client, "application") {
        Some(a) => a,
        None => {
            return None;
        },
    };
    get_str(&application, "name")
}

/// The document under `k` in the command document.
pub open spec fn body_doc(op: WireOperation, k: Seq<char>) -> Option<BsonDoc> {
    match msg_body(op) {
        Some(b) => field_doc(b, k),
        None => None,
    }
}

pub fn extract_filter(operation: &WireOperation) -> (r: Option<BsonDoc>)
    ensures
        r == body_doc(*operation, "filter"@),
{
    match op_msg_body(operation) {
        Some(body) => get_doc(body, "filter"),
        None => None,
    }
}

/// The stages of an aggregation: the documents of its `pipeline`, when
/// there is at least one.
pub open spec fn pipeline_in(op: WireOperation) -> Option<Seq<BsonDoc>> {
    match msg_body(op) {
        Some(b) => match field_array(b, "pipeline"@) {
            Some(a) => if docs_in(a).len() > 0 {
                Some(docs_in(a))
            } else {
                None
            },
            None => None,
        },
        None => None,
    }
}

pub fn extract_pipeline(operation: &WireOperation) -> (r: Option<Vec<BsonDoc>>)
    ensures
        match r {
            Some(v) => pipeline_in(*operation) == Some(v@),
            None => pipeline_in(*operation) is None,
        },
{
    let body = match op_msg_body(operation) {
        Some(b) => b,
        None => {
            return None;
        },
    };
    let arr = match get_array(body, "pipeline") {
        Some(a) => a,
        None => {
            return None;
        },
    };
    let stages = docs_of(arr);
    if stages.len() == 0 {
        None
    } else {
        Some(stages)
    }
}

/// The first statement of an update: its document, when it is one.
pub open spec fn first_update(op: WireOperation) -> Option<BsonDoc> {
    match msg_body(op) {
        Some(b) => match field_array(b, "updates"@) {
            Some(a) => first_doc(a),
            None => None,
        },
        None => None,
    }
}

/// The filter (`q`) and the change (`u`) of the first update statement.
pub open spec fn update_parts(op: WireOperation) -> (Option<BsonDoc>, Option<BsonDoc>) {
    match first_update(op) {
        Some(d) => (field_doc(d, "q"@), field_doc(d, "u"@)),
        None => (None, None),
    }
}

pub fn extract_update(operation: &WireOperation) -> (r: (Option<BsonDoc>, Option<BsonDoc>))
    ensures
        r == update_parts(*operation),
{
    let body = match op_msg_body(operation) {
        Some(b) => b,
        None => {
            return (None, None);
        },
    };
    let updates = match get_array(body, "updates") {
        Some(u) => u,
        None => {
            return (None, None);
        },
    };
    let first = match first_doc_of(updates) {
        Some(d) => d,
        None => {
            return (None, None);
        },
    };
    let filter = get_doc(&first, "q");
    let update = get_doc(&first, "u");
    (filter, update)
}

/// The filter of a delete: the `q` of its first statement, else the
/// `query` of the command.
pub open spec fn delete_filter(op: WireOperation) -> Option<BsonDoc> {
    match msg_body(op) {
        Some(b) => {
            let first = match field_array(b, "deletes"@) {
                Some(a) => first_doc(a),
                None => None,
            };
            match first {
                Some(d) if field_doc(d, "q"@) is Some => field_doc(d, "q"@),
                _ => field_doc(b, "query"@),
            }
        },
        None => None,
    }
}

pub fn extract_delete_filter(operation: &WireOperation) -> (r: Option<BsonDoc>)
    ensures
        r == delete_filter(*operation),
{
    let body = match op_msg_body(operation) {
        Some(b) => b,
        None => {
            return None;
        },
    };
    match get_array(body, "deletes") {
        Some(deletes) => match first_doc_of(deletes) {
            Some(d) => match get_doc(&d, "q") {
                Some(q) => {
                    return Some(q);
                },
                None => {},
            },
            None => {},
        },
        None => {},
    }
    get_doc(body, "query")
}

/// The `documents` of the first document sequence named `documents`
/// among `ss[i..]`, if there is one.
pub open spec fn named_sequence(ss: Seq<MsgSection>, i: int) -> Option<Seq<BsonDoc>>
    decreases ss.len() - i,
{
    if 0 <= i < ss.len() {
        match ss[i] {
            MsgSection::DocumentSequence { identifier, documents } => if identifier@
                == "documents"@ {
                Some(documents@)
            } else {
                named_sequence(ss, i + 1)
            },
            _ => named_sequence(ss, i + 1),
        }
    } else {
        None
    }
}

/// The first document of a body's `documents` array, over the bodies in
/// `ss[i..]`.
pub open spec fn body_insert_doc(ss: Seq<MsgSection>, i: int) -> Option<BsonDoc>
    decreases ss.len() - i,
{
    if 0 <= i < ss.len() {
        match ss[i] {
            MsgSection::Body(b) => match field_array(b, "documents"@) {
                Some(a) if first_doc(a) is Some => first_doc(a),
                _ => body_insert_doc(ss, i + 1),
            },
            _ => body_insert_doc(ss, i + 1),
        }
    } else {
        None
    }
}

/// The document an insert carries: the first of its `documents` sequence,
/// else the first of a body's `documents` array.
pub open spec fn insert_doc(op: WireOperation) -> Option<BsonDoc> {
    match op {
        WireOperation::Message(ss) => match named_sequence(ss@, 0) {
            Some(docs) => if docs.len() > 0 {
                Some(docs[0])
            } else {
                None
            },
            None => body_insert_doc(ss@, 0),
        },
        _ => None,
    }
}

fn same_text(a: &String, b: &str) -> (r: bool)
    ensures
        r == (a@ == b@),
{
    let x = crate::text::chars_of(a.as_str());
    crate::text::same_chars(&x, b)
}

pub fn extract_insert_doc(operation: &WireOperation) -> (r: Option<BsonDoc>)
    ensures
        r == insert_doc(*operation),
{
    match operation {
        WireOperation::Message(sections) => {
            let mut i: usize = 0;
            while i < sections.len()
                invariant
                    0 <= i <= sections@.len(),
                    *operation == WireOperation::Message(*sections),
                    named_sequence(sections@, 0) == named_sequence(sections@, i as int),
                decreases sections.len() - i,
            {
                match &sections[i] {
                    MsgSection::DocumentSequence { identifier, documents } => {
                        if same_text(identifier, "documents") {
                            if documents.len() > 0 {
                                return Some(documents[0].copy());
                            } else {
                                return None;
                            }
                        }
                    },
                    _ => {},
                }
                i += 1;
            }
            let mut j: usize = 0;
            while j < sections.len()
                invariant
                    0 <= j <= sections@.len(),
                    *operation == WireOperation::Message(*sections),
                    named_sequence(sections@, 0) is None,
                    body_insert_doc(sections@, 0) == body_insert_doc(sections@, j as int),
                decreases sections.len() - j,
            {
                match &sections[j] {
                    MsgSection::Body(body) => match get_array(body, "documents") {
                        Some(arr) => match first_doc_of(arr) {
                            Some(d) => {
                                return Some(d);
                            },
                            None => {},
                        },
                        None => {},
                    },
                    _ => {},
                }
                j += 1;
            }
            None
        },
        _ => None,
    }
}

/// The documents of a reply cursor's first batch, else of its next batch.
pub open spec fn cursor_batch(c: BsonDoc) -> Option<Seq<BsonDoc>> {
    match field_array(c, "firstBatch"@) {
        Some(a) => Some(docs_in(a)),
        None => match field_array(c, "nextBatch"@) {
            Some(a) => Some(docs_in(a)),
            None => None,
        },
    }
}

/// The batch of the first body section in `ss[i..]` whose cursor has one.
pub open spec fn batch_from(ss: Seq<MsgSection>, i: int) -> Seq<BsonDoc>
    decreases ss.len() - i,
{
    if 0 <= i < ss.len() {
        match ss[i] {
            MsgSection::Body(b) => match field_doc(b, "cursor"@) {
                Some(c) => match cursor_batch(c) {
                    Some(docs) => docs,
                    None => batch_from(ss, i + 1),
                },
                None => batch_from(ss, i + 1),
            },
            _ => batch_from(ss, i + 1),
        }
    } else {
        Seq::empty()
    }
}

/// The documents a reply carries.
pub open spec fn reply_docs(op: WireOperation) -> Seq<BsonDoc> {
    match op {
        WireOperation::Message(ss) => batch_from(ss@, 0),
        WireOperation::Reply(docs) => docs@,
        _ => Seq::empty(),
    }
}

fn clone_docs(v: &Vec<BsonDoc>) -> (r: Vec<BsonDoc>)
    ensures
        r@ == v@,
{
    let mut out: Vec<BsonDoc> = Vec::new();
    let mut i: usize = 0;
    while i < v.len()
        invariant
            0 <= i <= v@.len(),
            out@ == v@.take(i as int),
        decreases v.len() - i,
    {
        out.push(v[i].copy());
        assert(out@ =~= v@.take(i + 1));
        i += 1;
    }
    assert(v@.take(v@.len() as int) =~= v@);
    out
}

pub fn extract_response_docs(operation: &WireOperation) -> (r: Vec<BsonDoc>)
    ensures
        r@ == reply_docs(*operation),
{
    match operation {
        WireOperation::Message(sections) => {
            let mut i: usize = 0;
            while i < sections.len()
                invariant
                    0 <= i <= sections@.len(),
                    *operation == WireOperation::Message(*sections),
                    batch_from(sections@, 0) == batch_from(sections@, i as int),
                decreases sections.len() - i,
            {
                match &sections[i] {
                    MsgSection::Body(body) => match get_doc(body, "cursor") {
                        Some(cursor) => {
                            match get_array(&cursor, "firstBatch") {
                                Some(arr) => {
                                    return docs_of(arr);
                                },
                                None => {},
                            }
                            match get_array(&cursor, "nextBatch") {
                                Some(arr) => {
                                    return docs_of(arr);
                                },
                                None => {},
                            }
                        },
                        None => {},
                    },
                    _ => {},
                }
                i += 1;
            }
            Vec::new()
        },
        WireOperation::Reply(docs) => clone_docs(docs),
        _ => Vec::new(),
    }
}

/// `o`, or `d` when it is `None`.
pub open spec fn text_or(o: Option<Seq<char>>, d: Seq<char>) -> Seq<char> {
    match o {
        Some(s) => s,
        None => d,
    }
}

/// The database and collection a request names: its `$db`, and the
/// string under the command's collection key; `unknown` where missing.
pub open spec fn db_coll_in(op: WireOperation, coll_key: Seq<char>) -> (Seq<char>, Seq<char>) {
    match msg_body(op) {
        Some(b) => (text_or(field_str(b, "$db"@), "unknown"@), text_or(field_str(b, coll_key), "unknown"@)),
        None => ("unknown"@, "unknown"@),
    }
}

fn str_or_unknown(o: Option<String>) -> (r: String)
    ensures
        r@ == text_or(opt_view(o), "unknown"@),
{
    match o {
        Some(s) => s,
        None => "unknown".to_string(),
    }
}

pub fn extract_db_coll(operation: &WireOperation, coll_key: &str) -> (r: (String, String))
    ensures
        (r.0@, r.1@) == db_coll_in(*operation, coll_key@),
{
    let body = match op_msg_body(operation) {
        Some(b) => b,
        None => {
            return ("unknown".to_string(), "unknown".to_string());
        },
    };
    let db = str_or_unknown(get_str(body, "$db"));
    let coll = str_or_unknown(get_str(body, coll_key));
    (db, coll)
}

/// The known command a request names, its name lower-cased (ASCII).
pub open spec fn named_command(name: Option<Seq<char>>) -> Option<MongoCommand> {
    match name {
        Some(n) => command_named(ascii_lower(n)),
        None => None,
    }
}

/// How a request's command is classified: the known command its name
/// denotes, else `Other` with the lower-cased name (`unknown` without one).
pub open spec fn is_wire_command(name: Option<Seq<char>>, c: MongoCommand) -> bool {
    match named_command(name) {
        Some(k) => c == k,
        None => c matches MongoCommand::Other(s) && s@ == match name {
            Some(n) => ascii_lower(n),
            None => "unknown"@,
        },
    }
}

/// What the intercept layer does with a request.
pub enum RequestOutcome {
    /// A handshake: not recorded; a `hello` may name the client app.
    Handshake { app_name: Option<String> },
    /// Any other command: kept until its explain event or reply.
    Track(PendingEntry),
}

/// The optional documents as a sequence.
pub open spec fn opt_docs(o: Option<Vec<BsonDoc>>) -> Option<Seq<BsonDoc>> {
    match o {
        Some(v) => Some(v@),
        None => None,
    }
}

/// What a tracked request keeps of its command document, by command.
pub open spec fn tracked_parts(c: MongoCommand, op: WireOperation, p: PendingEntry) -> bool {
    &&& p.filter == match c {
        MongoCommand::Find | MongoCommand::Count | MongoCommand::Distinct => body_doc(op, "filter"@),
        MongoCommand::Update => update_parts(op).0,
        MongoCommand::Delete | MongoCommand::FindAndModify => delete_filter(op),
        _ => None,
    }
    &&& opt_docs(p.pipeline) == match c {
        MongoCommand::Aggregate => pipeline_in(op),
        _ => None,
    }
    &&& p.update == match c {
        MongoCommand::Update => update_parts(op).1,
        _ => None,
    }
    &&& p.doc == match c {
        MongoCommand::Insert => insert_doc(op),
        _ => None,
    }
    &&& (p.db@, p.coll@) == db_coll_in(
        op,
        match collection_key_of(c) {
            Some(k) => k,
            None => "unknown"@,
        },
    )
}

fn lowered_command(command_name: Option<&str>) -> (r: MongoCommand)
    ensures
        is_wire_command(
            match command_name {
                Some(n) => Some(n@),
                None => None,
            },
            r,
        ),
{
    match command_name {
        Some(n) => {
            let lowered = to_ascii_lowercase(n);
            MongoCommand::from_name(lowered.as_str())
        },
        None => MongoCommand::Other("unknown".to_string()),
    }
}

/// Decides what becomes of a request whose operation names
/// `command_name`, seen at `now_ms`.
pub fn request_outcome(command_name: Option<&str>, operation: &WireOperation, now_ms: u64) -> (r:
    RequestOutcome)
    ensures
        ({
            let name = match command_name {
                Some(n) => Some(n@),
                None => None,
            };
            match r {
                RequestOutcome::Handshake { app_name } => named_command(name) matches Some(k)
                    && is_handshake_cmd(k) && opt_view(app_name) == if k is Hello {
                    app_name_in(*operation)
                } else {
                    None
                },
                RequestOutcome::Track(p) => {
                    &&& is_wire_command(name, p.command)
                    &&& !is_handshake_cmd(p.command)
                    &&& tracked_parts(p.command, *operation, p)
                    &&& p.response_docs@.len() == 0
                    &&& p.start_ms == now_ms
                },
            }
        }),
{
    let cmd = lowered_command(command_name);
    if cmd.is_handshake() {
        let app_name = match cmd {
            MongoCommand::Hello => extract_app_name(operation),
            _ => None,
        };
        return RequestOutcome::Handshake { app_name };
    }
    let (filter, pipeline, update, doc) = match &cmd {
        MongoCommand::Find | MongoCommand::Count | MongoCommand::Distinct => (
            extract_filter(operation),
            None,
            None,
            None,
        ),
        MongoCommand::Aggregate => (None, extract_pipeline(operation), None, None),
        MongoCommand::Update => {
            let (f, u) = extract_update(operation);
            (f, None, u, None)
        },
        MongoCommand::Delete | MongoCommand::FindAndModify => (
            extract_delete_filter(operation),
            None,
            None,
            None,
        ),
        MongoCommand::Insert => (None, None, None, extract_insert_doc(operation)),
        _ => (None, None, None, None),
    };
    let (db, coll) = match cmd.collection_key() {
        Some(k) => extract_db_coll(operation, k),
        None => extract_db_coll(operation, "unknown"),
    };
    RequestOutcome::Track(
        PendingEntry {
            filter,
            pipeline,
            update,
            doc,
            response_docs: Vec::new(),
            start_ms: now_ms,
            db,
            coll,
            command: cmd,
        },
    )
}

fn clone_opt_doc(o: &Option<BsonDoc>) -> (r: Option<BsonDoc>)
    ensures
        r == *o,
{
    match o {
        Some(d) => Some(d.copy()),
        None => None,
    }
}

fn clone_opt_docs(o: &Option<Vec<BsonDoc>>) -> (r: Option<Vec<BsonDoc>>)
    ensures
        opt_docs(r) == opt_docs(*o),
{
    match o {
        Some(v) => Some(clone_docs(v)),
        None => None,
    }
}

/// Milliseconds from `start` to `now`, zero when the clock went back,
/// kept to 32 bits.
pub open spec fn elapsed_ms(start: u64, now: u64) -> u32 {
    (if now >= start {
        now - start
    } else {
        0
    }) as u32
}

/// A reply to the tracked request `entry` (sent as `request_id`) arrived at
/// `now_ms` with the documents `docs`: they are added to the entry, which
/// stays for the explain event, and the request is reported at once.
pub fn reply_received(
    entry: &mut PendingEntry,
    docs: Vec<BsonDoc>,
    request_id: i32,
    now_ms: u64,
    app_name: Option<String>,
) -> (r: DirectEntry)
    ensures
        final(entry).response_docs@ == old(entry).response_docs@ + docs@,
        final(entry).filter == old(entry).filter,
        final(entry).pipeline == old(entry).pipeline,
        final(entry).update == old(entry).update,
        final(entry).doc == old(entry).doc,
        final(entry).start_ms == old(entry).start_ms,
        final(entry).db == old(entry).db,
        final(entry).coll == old(entry).coll,
        final(entry).command == old(entry).command,
        r.request_id == request_id,
        r.command == old(entry).command,
        r.db == old(entry).db,
        r.coll == old(entry).coll,
        r.start_ms == old(entry).start_ms,
        r.latency_ms == elapsed_ms(old(entry).start_ms, now_ms),
        r.filter == old(entry).filter,
        opt_docs(r.pipeline) == opt_docs(old(entry).pipeline),
        r.update == old(entry).update,
        r.doc == old(entry).doc,
        r.app_name == app_name,
{
    let mut docs = docs;
    if docs.len() > 0 {
        entry.response_docs.append(&mut docs);
    }
    let elapsed: u64 = if now_ms >= entry.start_ms {
        now_ms - entry.start_ms
    } else {
        0
    };
    DirectEntry {
        request_id,
        command: entry.command.clone(),
        db: entry.db.clone(),
        coll: entry.coll.clone(),
        start_ms: entry.start_ms,
        latency_ms: elapsed as u32,
        filter: clone_opt_doc(&entry.filter),
        pipeline: clone_opt_docs(&entry.pipeline),
        update: clone_opt_doc(&entry.update),
        doc: clone_opt_doc(&entry.doc),
        app_name,
    }
}

} // verus!
