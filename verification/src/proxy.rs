//! Turning what the wire proxy observes into captured requests: the
//! connection string, the explain plan, the request store.

use std::collections::VecDeque;
use std::sync::atomic::AtomicU64;
use std::sync::Arc;
use vstd::prelude::*;
use crate::bson::{doc_entries, BsonDoc};
use crate::model::{IndexSuggestion, Op, Plan, QueryEntry, Suggestion};
use crate::text::{upper, to_upper};
use crate::command::{command_op, is_system_cmd};
use crate::intercept::{DirectEntry, PendingEntry};
use crate::types::{
    or_unknown, AppName, CollectionName, ConnId, DatabaseName, DocsExamined, DocsReturned,
    IndexName, LatencyMs, QueryId, TimestampMs,
};
use crate::text::{
    before_first, chars_of, concat, decimal, decimal_value, digit_char, digit_value, find_first_or_end, find_last,
    is_digit, is_prefix, last_index, parse_u16, parse_u16_at, strip_all, strip_all_from,
    string_of, trim_char, trim_char_bounds, unsigned_part,
};

verus! {

/// A capture source that runs the wire proxy in front of a server.
pub struct ProxySource {
    pub upstream_host: String,
    pub upstream_port: u16,
    pub proxy_port: u16,
    /// Where the ids of captured requests are drawn from.
    pub next_id: Arc<AtomicU64>,
}

impl ProxySource {
    pub fn new(upstream_host: String, upstream_port: u16, proxy_port: u16, next_id: Arc<AtomicU64>) -> (r:
        Self)
        ensures
            r.upstream_host == upstream_host,
            r.upstream_port == upstream_port,
            r.proxy_port == proxy_port,
            r.next_id == next_id,
    {
        ProxySource { upstream_host, upstream_port, proxy_port, next_id }
    }
}

/// The `host:port` part of a connection string: after the scheme, after
/// the last `@`, before the first `/` and the first `?`.
pub open spec fn uri_host_port(u: Seq<char>) -> Seq<char> {
    let r1 = strip_all(strip_all(u, "mongodb+srv://"@), "mongodb://"@);
    let r2 = match last_index(r1, '@') {
        Some(at) => r1.skip(at + 1),
        None => r1,
    };
    before_first(before_first(r2, '/'), '?')
}

/// What `parse_mongo_uri` gives for the connection string `u`.
pub open spec fn parsed_uri(u: Seq<char>) -> Result<(Seq<char>, u16), Seq<char>> {
    let hp = uri_host_port(u);
    match last_index(hp, ':') {
        Some(c) => {
            let host = trim_char(trim_char(hp.take(c), '['), ']');
            match parse_u16(hp.skip(c + 1)) {
                None => Err("invalid port in URI: "@ + u),
                Some(port) => if host.len() == 0 {
                    Err("empty host in URI: "@ + u)
                } else {
                    Ok((host, port))
                },
            }
        },
        None => if hp.len() == 0 {
            Err("could not parse host from URI: "@ + u)
        } else {
            Ok((hp, 27017u16))
        },
    }
}

/// Parse a MongoDB URI into (host, port).
#[verifier::rlimit(40)]
#[verifier::spinoff_prover]
pub fn parse_mongo_uri(uri: &str) -> (r: Result<(String, u16), String>)
    ensures
        match r {
            Ok((host, port)) => parsed_uri(uri@) == Ok::<(Seq<char>, u16), Seq<char>>((host@, port)),
            Err(msg) => parsed_uri(uri@) == Err::<(Seq<char>, u16), Seq<char>>(msg@),
        },
{
    let v = chars_of(uri);
    let a = strip_all_from(&v, 0, "mongodb+srv://");
    let b = strip_all_from(&v, a, "mongodb://");
    let ghost u = uri@;
    let ghost r1 = strip_all(strip_all(u, "mongodb+srv://"@), "mongodb://"@);
    proof {
        assert(v@.skip(0) =~= v@);
        assert(r1 == v@.skip(b as int));
        assert(v@.subrange(b as int, v@.len() as int) =~= r1);
    }
    let n = v.len();
    let start = match find_last(&v, b, n, '@') {
        Some(at) => at + 1,
        None => b,
    };
    proof {
        crate::text::lemma_last_index(r1, '@');
    }
    let ghost r2 = match last_index(r1, '@') {
        Some(at) => r1.skip(at + 1),
        None => r1,
    };
    proof {
        assert(v@.subrange(start as int, n as int) =~= r2);
    }
    let e1 = find_first_or_end(&v, start, n, '/');
    let e2 = find_first_or_end(&v, start, e1, '?');
    let ghost hp = v@.subrange(start as int, e2 as int);
    assert(hp == uri_host_port(u));
    proof {
        crate::text::lemma_last_index(hp, ':');
    }
    match find_last(&v, start, e2, ':') {
        Some(colon) => {
            let (h0, h1) = trim_char_bounds(&v, start, colon, '[');
            let (h2, h3) = trim_char_bounds(&v, h0, h1, ']');
            proof {
                let k = colon - start;
                assert(hp.take(k) =~= v@.subrange(start as int, colon as int));
                assert(hp.skip(k + 1) =~= v@.subrange(colon + 1, e2 as int));
            }
            match parse_u16_at(&v, colon + 1, e2) {
                None => Err(concat("invalid port in URI: ", uri)),
                Some(port) => {
                    if h2 == h3 {
                        Err(concat("empty host in URI: ", uri))
                    } else {
                        Ok((string_of(&v, h2, h3), port))
                    }
                },
            }
        },
        None => {
            if start == e2 {
                Err(concat("could not parse host from URI: ", uri))
            } else {
                Ok((string_of(&v, start, e2), 27017))
            }
        },
    }
}

/// `a` if it is the smaller, else `b`.
pub open spec fn min_u32(a: u32, b: u32) -> u32 {
    if a <= b {
        a
    } else {
        b
    }
}

/// The suggestions for a request: an index when the plan scanned the
/// whole collection under a non-empty filter, with stage estimates drawn
/// from the latency.
pub open spec fn suggestions_for(plan: Option<Plan>, filter: Option<BsonDoc>, latency_ms: u32) -> Seq<
    Suggestion,
> {
    if plan == Some(Plan::CollScan) && (filter matches Some(f) && doc_entries(f).len() > 0) {
        seq![
            Suggestion::CreateIndex(
                IndexSuggestion {
                    ixscan_ms: min_u32((latency_ms / 10) as u32, 50),
                    fetch_ms: min_u32((latency_ms / 20) as u32, 25),
                    sort_ms: 0,
                    limit_ms: 0,
                },
            ),
        ]
    } else {
        seq![]
    }
}

pub fn build_suggestions(plan: &Option<Plan>, filter: &Option<BsonDoc>, latency_ms: u32) -> (r: Vec<
    Suggestion,
>)
    ensures
        r@ == suggestions_for(*plan, *filter, latency_ms),
{
    if !matches!(plan, Some(Plan::CollScan)) {
        return vec![];
    }
    let f = match filter {
        Some(f) => f,
        None => {
            return vec![];
        },
    };
    if f.is_empty() {
        return vec![];
    }
    let ix = latency_ms / 10;
    let fetch = latency_ms / 20;
    vec![
        Suggestion::CreateIndex(
            IndexSuggestion {
                ixscan_ms: if ix <= 50 {
                    ix
                } else {
                    50
                },
                fetch_ms: if fetch <= 25 {
                    fetch
                } else {
                    25
                },
                sort_ms: 0,
                limit_ms: 0,
            },
        ),
    ]
}

/// The command an explain event reports.
pub enum ExplainCommand {
    Find,
    Aggregate,
    Count,
    Update,
    Delete,
    Distinct,
    FindAndModify,
    /// A command the explain output names but does not classify.
    Other(String),
    /// Any command kind not listed above.
    Unlisted,
}

/// The operation an explained command is shown as.
pub open spec fn explain_op(c: ExplainCommand, op: Op) -> bool {
    match c {
        ExplainCommand::Find => op == Op::Find,
        ExplainCommand::Aggregate => op == Op::Aggregate,
        ExplainCommand::Count => op == Op::CountDocuments,
        ExplainCommand::Update => op == Op::UpdateMany,
        ExplainCommand::Delete => op == Op::DeleteMany,
        ExplainCommand::Distinct => op matches Op::Unknown(s) && s@ == "DISTINCT"@,
        ExplainCommand::FindAndModify => op matches Op::Unknown(s) && s@ == "FINDMOD"@,
        ExplainCommand::Other(name) => op matches Op::Unknown(s) && s@ == upper(name@),
        ExplainCommand::Unlisted => op matches Op::Unknown(s) && s@ == "UNKNOWN"@,
    }
}

pub fn command_to_op(cmd: &ExplainCommand) -> (r: Op)
    ensures
        explain_op(*cmd, r),
{
    match cmd {
        ExplainCommand::Find => Op::Find,
        ExplainCommand::Aggregate => Op::Aggregate,
        ExplainCommand::Count => Op::CountDocuments,
        ExplainCommand::Update => Op::UpdateMany,
        ExplainCommand::Delete => Op::DeleteMany,
        ExplainCommand::Distinct => Op::Unknown("DISTINCT".to_string()),
        ExplainCommand::FindAndModify => Op::Unknown("FINDMOD".to_string()),
        ExplainCommand::Other(name) => Op::Unknown(to_upper(name.as_str())),
        ExplainCommand::Unlisted => Op::Unknown("UNKNOWN".to_string()),
    }
}

/// The stage of a node of an explain plan.
pub enum PlanStage {
    Collscan,
    SbeScan,
    Ixscan,
    SbeIxscan,
    SbeIxseek,
    DistinctScan,
    ExpressIxscan,
    ExpressClusteredIxscan,
    /// Any stage that says nothing of how documents are found.
    Other,
}

/// A node of an explain plan tree.
pub struct PlanNode {
    pub stage: PlanStage,
    pub index_name: Option<String>,
    pub children: Vec<PlanNode>,
}

/// Whether a stage tells how documents are found.
pub open spec fn access_stage(s: PlanStage) -> bool {
    !(s is Other)
}

/// The first node of the tree, in pre-order, whose stage tells how
/// documents are found.
pub open spec fn first_access(node: PlanNode) -> Option<PlanNode>
    decreases node, 0int,
{
    if access_stage(node.stage) {
        Some(node)
    } else {
        first_access_in(node.children@, 0)
    }
}

/// The first such node in the trees `cs[i..]`.
pub open spec fn first_access_in(cs: Seq<PlanNode>, i: int) -> Option<PlanNode>
    decreases cs, cs.len() - i,
{
    if 0 <= i < cs.len() {
        match first_access(cs[i]) {
            Some(n) => Some(n),
            None => first_access_in(cs, i + 1),
        }
    } else {
        None
    }
}

/// The index a node names: its name trimmed, when something is left.
pub open spec fn named_index(name: Option<String>) -> Option<Seq<char>> {
    match name {
        Some(n) => if crate::text::trimmed(n@).len() > 0 {
            Some(crate::text::trimmed(n@))
        } else {
            None
        },
        None => None,
    }
}

/// How a plan is classified from the node that tells how documents are
/// found: the plan and the index it uses.
pub open spec fn plan_classified(found: Option<PlanNode>, r: (Option<Plan>, Option<IndexName>)) -> bool {
    match found {
        None => r.0 is None && r.1 is None,
        Some(n) => match n.stage {
            PlanStage::Collscan | PlanStage::SbeScan => r.0 == Some(Plan::CollScan) && r.1 is None,
            PlanStage::ExpressIxscan | PlanStage::ExpressClusteredIxscan => r.0 == Some(Plan::IdHack)
                && r.1 is None,
            PlanStage::Other => false,
            _ => {
                &&& match named_index(n.index_name) {
                    Some(s) => r.1 matches Some(x) && x@ == s,
                    None => r.1 is None,
                }
                &&& r.0 matches Some(Plan::IxScan(x)) && x@ == or_unknown(
                    match n.index_name {
                        Some(s) => s@,
                        None => Seq::empty(),
                    },
                )
            },
        },
    }
}

pub fn classify_plan(node: &PlanNode) -> (r: (Option<Plan>, Option<IndexName>))
    ensures
        plan_classified(first_access(*node), r),
    decreases node,
{
    match &node.stage {
        PlanStage::Collscan | PlanStage::SbeScan => (Some(Plan::CollScan), None),
        PlanStage::ExpressIxscan | PlanStage::ExpressClusteredIxscan => (Some(Plan::IdHack), None),
        PlanStage::Other => {
            let mut i: usize = 0;
            while i < node.children.len()
                invariant
                    node.stage is Other,
                    0 <= i <= node.children@.len(),
                    first_access(*node) == first_access_in(node.children@, i as int),
                decreases node.children@.len() - i,
            {
                assert(decreases_to!(*node => node.children@[i as int]));
                let result = classify_plan(&node.children[i]);
                if result.0.is_some() {
                    return result;
                }
                i += 1;
            }
            (None, None)
        },
        _ => {
            let idx = match &node.index_name {
                Some(n) => match IndexName::try_new(n.as_str()) {
                    Ok(x) => Some(x),
                    Err(_) => None,
                },
                None => None,
            };
            let plan = match &node.index_name {
                Some(n) => Plan::IxScan(IndexName::or_unknown(n.as_str())),
                None => Plan::IxScan(IndexName::or_unknown("")),
            };
            proof {
                reveal_strlit("");
            }
            (Some(plan), idx)
        },
    }
}

/// How a plan is reported, by the first stage that tells how documents
/// are found: a full collection scan exactly when that stage is COLLSCAN
/// or its SBE form; the id fast path exactly for the express stages; an
/// index scan stage (IXSCAN, its SBE forms, DISTINCT_SCAN) always as an
/// index scan, never as a collection scan, naming the index the node
/// names; and nothing at all when no stage tells.
pub proof fn lemma_plan_report(node: PlanNode, r: (Option<Plan>, Option<IndexName>))
    requires
        plan_classified(first_access(node), r),
    ensures
        r.0 is None <==> first_access(node) is None,
        r.0 == Some(Plan::CollScan) <==> (first_access(node) matches Some(n) && (n.stage is Collscan
            || n.stage is SbeScan)),
        r.0 == Some(Plan::IdHack) <==> (first_access(node) matches Some(n) && (n.stage is ExpressIxscan
            || n.stage is ExpressClusteredIxscan)),
        match first_access(node) {
            Some(n) => (n.stage is Ixscan || n.stage is SbeIxscan || n.stage is SbeIxseek
                || n.stage is DistinctScan) ==> (r.0 matches Some(Plan::IxScan(_)) && match n.index_name {
                Some(s) => crate::text::trimmed(s@).len() > 0 ==> (r.0 matches Some(Plan::IxScan(x))
                    && x@ == crate::text::trimmed(s@)) && (r.1 matches Some(y) && y@
                    == crate::text::trimmed(s@)),
                None => r.1 is None,
            }),
            None => true,
        },
        r.1 is Some ==> r.0 matches Some(Plan::IxScan(_)),
        access_stage(node.stage) ==> first_access(node) == Some(node),
{
}

/// Most requests the store keeps.
pub const STORE_CAP: usize = 10000;

/// Position of the first entry of `s[i..]` that came on connection `c`.
pub open spec fn conn_pos_from(s: Seq<QueryEntry>, c: ConnId, i: int) -> Option<int>
    decreases s.len() - i,
{
    if 0 <= i < s.len() {
        if s[i].conn_id == c {
            Some(i)
        } else {
            conn_pos_from(s, c, i + 1)
        }
    } else {
        None
    }
}

/// Position of the first entry of `s` that came on connection `c`.
pub open spec fn conn_pos(s: Seq<QueryEntry>, c: ConnId) -> Option<int> {
    conn_pos_from(s, c, 0)
}

/// The store after `e` is filed: it replaces the entry of its connection,
/// or goes last, the oldest entry leaving when the store would pass its cap.
pub open spec fn upserted(s: Seq<QueryEntry>, e: QueryEntry) -> Seq<QueryEntry> {
    match conn_pos(s, e.conn_id) {
        Some(p) => s.update(p, e),
        None => if s.len() + 1 > STORE_CAP {
            s.push(e).drop_first()
        } else {
            s.push(e)
        },
    }
}

/// Upsert into the store: replace the existing entry with the same
/// connection (explain enrichment) or append. Caps at 10,000 entries.
pub fn store_upsert(store: &mut VecDeque<QueryEntry>, entry: QueryEntry)
    ensures
        final(store)@ == upserted(old(store)@, entry),
{
    let conn_id = entry.conn_id;
    let mut i: usize = 0;
    let n = store.len();
    while i < n
        invariant
            n == store@.len(),
            0 <= i <= n,
            conn_id == entry.conn_id,
            store@ == old(store)@,
            conn_pos(store@, conn_id) == conn_pos_from(store@, conn_id, i as int),
        decreases n - i,
    {
        if store[i].conn_id == conn_id {
            assert(conn_pos_from(store@, conn_id, i as int) == Some(i as int));
            let _ = store.remove(i);
            store.insert(i, entry);
            assert(store@ =~= old(store)@.update(i as int, entry));
            assert(conn_pos(old(store)@, entry.conn_id) == Some(i as int));
            assert(store@ == upserted(old(store)@, entry));
            return;
        }
        i += 1;
    }
    store.push_back(entry);
    if store.len() > STORE_CAP {
        let _ = store.pop_front();
        assert(store@ =~= old(store)@.push(entry).drop_first());
    }
}

/// Connection ids are distinct among the entries of `s`.
pub open spec fn conn_ids_distinct(s: Seq<QueryEntry>) -> bool {
    forall|i: int, j: int| 0 <= i < j < s.len() ==> s[i].conn_id != s[j].conn_id
}

proof fn lemma_conn_pos_from(s: Seq<QueryEntry>, c: ConnId, i: int)
    requires
        0 <= i,
    ensures
        match conn_pos_from(s, c, i) {
            Some(p) => i <= p < s.len() && s[p].conn_id == c && forall|j: int|
                i <= j < p ==> s[j].conn_id != c,
            None => forall|j: int| i <= j < s.len() ==> s[j].conn_id != c,
        },
    decreases s.len() - i,
{
    if 0 <= i < s.len() && s[i].conn_id != c {
        lemma_conn_pos_from(s, c, i + 1);
    }
}

/// The store never holds more than its cap.
pub proof fn lemma_upsert_within_cap(s: Seq<QueryEntry>, e: QueryEntry)
    requires
        s.len() <= STORE_CAP,
    ensures
        upserted(s, e).len() <= STORE_CAP,
{
    lemma_conn_pos_from(s, e.conn_id, 0);
}

/// Filing an entry keeps one entry per connection.
pub proof fn lemma_upsert_keeps_conn_ids_distinct(s: Seq<QueryEntry>, e: QueryEntry)
    requires
        conn_ids_distinct(s),
    ensures
        conn_ids_distinct(upserted(s, e)),
{
    lemma_conn_pos_from(s, e.conn_id, 0);
    let t = upserted(s, e);
    match conn_pos(s, e.conn_id) {
        Some(p) => {
            assert forall|i: int, j: int| 0 <= i < j < t.len() implies t[i].conn_id
                != t[j].conn_id by {
                if i == p {
                    assert(s[j].conn_id != s[p].conn_id);
                } else if j == p {
                    assert(s[i].conn_id != s[p].conn_id);
                }
            }
        },
        None => {
            let u = s.push(e);
            assert(conn_ids_distinct(u)) by {
                assert forall|i: int, j: int| 0 <= i < j < u.len() implies u[i].conn_id
                    != u[j].conn_id by {
                    if j == s.len() {
                        assert(s[i].conn_id != e.conn_id);
                    }
                }
            }
            if s.len() + 1 > STORE_CAP {
                assert forall|i: int, j: int| 0 <= i < j < t.len() implies t[i].conn_id
                    != t[j].conn_id by {
                    assert(t[i] == u[i + 1] && t[j] == u[j + 1]);
                }
            }
        },
    }
}

/// The entry just filed is the one the store holds for its connection.
pub proof fn lemma_upsert_then_lookup(s: Seq<QueryEntry>, e: QueryEntry)
    requires
        conn_ids_distinct(s),
    ensures
        conn_pos(upserted(s, e), e.conn_id) matches Some(p) && upserted(s, e)[p] == e,
{
    lemma_conn_pos_from(s, e.conn_id, 0);
    lemma_upsert_keeps_conn_ids_distinct(s, e);
    let t = upserted(s, e);
    let k: int = match conn_pos(s, e.conn_id) {
        Some(p) => p,
        None => t.len() - 1,
    };
    assert(t[k] == e);
    lemma_conn_pos_from(t, e.conn_id, 0);
    match conn_pos(t, e.conn_id) {
        Some(q) => {
            if q != k {
                if q < k {
                    assert(t[q].conn_id != t[k].conn_id);
                } else {
                    assert(t[k].conn_id != t[q].conn_id);
                }
            }
        },
        None => {
            assert(t[k].conn_id == e.conn_id);
        },
    }
}

/// The number of a request id, without its sign.
pub open spec fn unsigned_abs(x: i32) -> u32 {
    if x < 0 {
        (-x) as u32
    } else {
        x as u32
    }
}

fn abs_i32(x: i32) -> (r: u32)
    ensures
        r == unsigned_abs(x),
{
    if x < 0 {
        let w: i64 = x as i64;
        (-w) as u32
    } else {
        x as u32
    }
}

/// The app a request is filed under when the handshake named `app`.
pub open spec fn app_or_unknown(app: Option<String>) -> Seq<char> {
    match app {
        Some(a) => or_unknown(a@),
        None => "unknown"@,
    }
}

fn app_name_or_unknown(app: Option<String>) -> (r: AppName)
    ensures
        r@ == app_or_unknown(app),
{
    match app {
        Some(a) => AppName::or_unknown(a.as_str()),
        None => {
            proof {
                reveal_strlit("");
            }
            AppName::or_unknown("")
        },
    }
}

/// A request at or over one second is slow.
pub open spec fn is_slow(latency_ms: u32) -> bool {
    latency_ms >= 1000
}

pub fn direct_to_entry(direct: DirectEntry, id: u64) -> (r: QueryEntry)
    requires
        id > 0,
    ensures
        r.id@ == id,
        r.t_ms@ == direct.start_ms,
        r.latency_ms@ == direct.latency_ms,
        command_op(direct.command, r.op),
        r.db@ == or_unknown(direct.db@),
        r.coll@ == or_unknown(direct.coll@),
        r.app@ == app_or_unknown(direct.app_name),
        r.plan is None,
        r.index is None,
        r.docs_examined is None,
        r.docs_returned is None,
        r.filter == direct.filter,
        r.pipeline == direct.pipeline,
        r.update == direct.update,
        r.doc == direct.doc,
        r.warn is None,
        r.slow == is_slow(direct.latency_ms),
        r.is_system == is_system_cmd(direct.command),
        r.conn_id@ == unsigned_abs(direct.request_id),
        r.lsid is None,
        r.cluster_time is None,
        r.response_docs@.len() == 0,
        r.rejected_plan_count == 0,
        r.suggestions@.len() == 0,
{
    let db = DatabaseName::or_unknown(direct.db.as_str());
    let coll = CollectionName::or_unknown(direct.coll.as_str());
    let app = app_name_or_unknown(direct.app_name);
    let is_system = direct.command.is_system();
    let op = direct.command.to_op();
    let slow = direct.latency_ms >= 1000;
    let conn_id = ConnId::new(abs_i32(direct.request_id));
    let qid = QueryId::try_new(id);
    QueryEntry {
        id: qid.unwrap(),
        t_ms: TimestampMs::new(direct.start_ms),
        latency_ms: LatencyMs::new(direct.latency_ms),
        op,
        db,
        coll,
        app,
        plan: None,
        index: None,
        docs_examined: None,
        docs_returned: None,
        filter: direct.filter,
        pipeline: direct.pipeline,
        update: direct.update,
        doc: direct.doc,
        warn: None,
        slow,
        is_system,
        conn_id,
        lsid: None,
        cluster_time: None,
        response_docs: vec![],
        rejected_plan_count: 0,
        suggestions: vec![],
    }
}

/// What an explain event reports of one request.
pub struct ExplainEvent {
    pub command: ExplainCommand,
    pub database: String,
    pub collection: String,
    pub plan: PlanNode,
    /// Total execution time, in milliseconds.
    pub execution_ms: u128,
    pub docs_examined: i64,
    pub n_returned: i64,
    pub client_request_id: i32,
}

/// A count as reported, negative ones read as zero.
pub open spec fn count_or_zero(x: i64) -> u64 {
    if x < 0 {
        0
    } else {
        x as u64
    }
}

fn nonneg(x: i64) -> (r: u64)
    ensures
        r == count_or_zero(x),
{
    if x < 0 {
        0
    } else {
        x as u64
    }
}

/// Builds the request record for an explain event, at time `t_ms`, from
/// what the request had left pending and the app the handshake named.
pub fn explain_to_entry(
    event: ExplainEvent,
    id: u64,
    t_ms: u64,
    pending: Option<PendingEntry>,
    app_name: Option<String>,
) -> (r: QueryEntry)
    requires
        id > 0,
    ensures
        r.id@ == id,
        r.t_ms@ == t_ms,
        r.latency_ms@ == event.execution_ms as u32,
        explain_op(event.command, r.op),
        r.db@ == or_unknown(event.database@),
        r.coll@ == or_unknown(event.collection@),
        r.app@ == app_or_unknown(app_name),
        plan_classified(first_access(event.plan), (r.plan, r.index)),
        r.docs_examined matches Some(d) && d@ == count_or_zero(event.docs_examined),
        r.docs_returned matches Some(d) && d@ == count_or_zero(event.n_returned),
        match pending {
            Some(p) => r.filter == p.filter && r.pipeline == p.pipeline && r.update == p.update
                && r.doc == p.doc && r.response_docs == p.response_docs,
            None => r.filter is None && r.pipeline is None && r.update is None && r.doc is None
                && r.response_docs@.len() == 0,
        },
        r.warn is None,
        r.slow == is_slow(event.execution_ms as u32),
        !r.is_system,
        r.conn_id@ == unsigned_abs(event.client_request_id),
        r.lsid is None,
        r.cluster_time is None,
        r.rejected_plan_count == 0,
        r.suggestions@ == suggestions_for(r.plan, r.filter, event.execution_ms as u32),
{
    let latency_ms = event.execution_ms as u32;
    let slow = latency_ms >= 1000;
    let op = command_to_op(&event.command);
    let db = DatabaseName::or_unknown(event.database.as_str());
    let coll = CollectionName::or_unknown(event.collection.as_str());
    let (plan, index) = classify_plan(&event.plan);
    let docs_examined = DocsExamined::new(nonneg(event.docs_examined));
    let docs_returned = DocsReturned::new(nonneg(event.n_returned));
    let conn_id = ConnId::new(abs_i32(event.client_request_id));
    let (filter, pipeline, update, doc, response_docs) = match pending {
        Some(p) => (p.filter, p.pipeline, p.update, p.doc, p.response_docs),
        None => (None, None, None, None, vec![]),
    };
    let app = app_name_or_unknown(app_name);
    let suggestions = build_suggestions(&plan, &filter, latency_ms);
    let qid = QueryId::try_new(id);
    QueryEntry {
        id: qid.unwrap(),
        t_ms: TimestampMs::new(t_ms),
        latency_ms: LatencyMs::new(latency_ms),
        op,
        db,
        coll,
        app,
        plan,
        index,
        docs_examined: Some(docs_examined),
        docs_returned: Some(docs_returned),
        filter,
        pipeline,
        update,
        doc,
        warn: None,
        slow,
        is_system: false,
        conn_id,
        lsid: None,
        cluster_time: None,
        response_docs,
        rejected_plan_count: 0,
        suggestions,
    }
}


/// Whether `c` occurs nowhere in `s`.
pub open spec fn lacks(s: Seq<char>, c: char) -> bool {
    forall|i: int| 0 <= i < s.len() ==> s[i] != c
}

/// A host that can stand between `mongodb://` and `:<port>`: not empty,
/// without `@`, `/`, `?` or `:`, and neither beginning nor ending with a
/// bracket.
pub open spec fn plain_host(h: Seq<char>) -> bool {
    &&& h.len() > 0
    &&& lacks(h, '@') && lacks(h, '/') && lacks(h, '?') && lacks(h, ':')
    &&& h[0] != '[' && h[0] != ']'
    &&& h.last() != '[' && h.last() != ']'
}

/// The connection string for `host` and `port`.
pub open spec fn uri_for(host: Seq<char>, port: u16) -> Seq<char> {
    "mongodb://"@ + host + ":"@ + decimal(port as nat) + "/"@
}

proof fn lemma_decimal_digits(n: nat)
    ensures
        decimal(n).len() > 0,
        forall|i: int| 0 <= i < decimal(n).len() ==> is_digit(#[trigger] decimal(n)[i]),
        decimal_value(decimal(n)) == n,
    decreases n,
{
    if n >= 10 {
        lemma_decimal_digits(n / 10);
        let d = decimal(n);
        assert(d.drop_last() =~= decimal(n / 10));
        assert(n / 10 * 10 + n % 10 == n);
        lemma_digit_value(n % 10);
        assert(d.last() == digit_char(n % 10));
        assert(decimal_value(d) == decimal_value(d.drop_last()) * 10 + digit_value(d.last()));
    } else {
        lemma_digit_value(n);
        assert(decimal_value(Seq::<char>::empty()) == 0);
        assert(decimal(n).drop_last() =~= Seq::<char>::empty());
    }
}

proof fn lemma_digit_value(d: nat)
    requires
        d < 10,
    ensures
        digit_value(digit_char(d)) == d,
        is_digit(digit_char(d)),
{
    assert(digit_char(d) as int == d + 48);
}

proof fn lemma_before_first_none(s: Seq<char>, c: char)
    requires
        lacks(s, c),
    ensures
        before_first(s, c) == s,
    decreases s.len(),
{
    if s.len() > 0 {
        lemma_before_first_none(s.drop_first(), c);
        assert(seq![s[0]] + s.drop_first() =~= s);
    }
}

proof fn lemma_before_first_at(a: Seq<char>, c: char, b: Seq<char>)
    requires
        lacks(a, c),
    ensures
        before_first(a + seq![c] + b, c) == a,
    decreases a.len(),
{
    let s = a + seq![c] + b;
    if a.len() == 0 {
        assert(s[0] == c);
    } else {
        lemma_before_first_at(a.drop_first(), c, b);
        assert(s.drop_first() =~= a.drop_first() + seq![c] + b);
        assert(seq![a[0]] + a.drop_first() =~= a);
    }
}

proof fn lemma_last_index_none(s: Seq<char>, c: char)
    requires
        lacks(s, c),
    ensures
        last_index(s, c) is None,
    decreases s.len(),
{
    if s.len() > 0 {
        lemma_last_index_none(s.drop_last(), c);
    }
}

proof fn lemma_last_index_at(a: Seq<char>, c: char, b: Seq<char>)
    requires
        lacks(b, c),
    ensures
        last_index(a + seq![c] + b, c) == Some(a.len() as int),
    decreases b.len(),
{
    let s = a + seq![c] + b;
    if b.len() > 0 {
        lemma_last_index_at(a, c, b.drop_last());
        assert(s.drop_last() =~= a + seq![c] + b.drop_last());
    }
}

/// A connection string made of a plain host and a port gives back that
/// host and that port.
pub proof fn lemma_uri_roundtrip(host: Seq<char>, port: u16)
    requires
        plain_host(host),
    ensures
        parsed_uri(uri_for(host, port)) == Ok::<(Seq<char>, u16), Seq<char>>((host, port)),
{
    reveal_strlit("mongodb://");
    reveal_strlit("mongodb+srv://");
    reveal_strlit(":");
    reveal_strlit("/");
    let dec = decimal(port as nat);
    lemma_decimal_digits(port as nat);
    let u = uri_for(host, port);
    let rest = host + seq![':'] + dec + seq!['/'];
    assert(u =~= "mongodb://"@ + rest);
    // `mongodb+srv://` differs from `mongodb://` at its eighth character.
    assert(u[7] == ':');
    assert(!is_prefix("mongodb+srv://"@, u)) by {
        if is_prefix("mongodb+srv://"@, u) {
            assert(u.subrange(0, 14)[7] == "mongodb+srv://"@[7]);
        }
    }
    assert(strip_all(u, "mongodb+srv://"@) == u);
    // The rest has a `/` only at its end, where `mongodb://` has two.
    assert forall|i: int| 0 <= i < rest.len() - 1 implies rest[i] != '/' by {
        if i < host.len() {
            assert(rest[i] == host[i]);
        } else if i > host.len() {
            assert(rest[i] == dec[i - host.len() - 1]);
            assert(is_digit(dec[i - host.len() - 1]));
        }
    }
    assert(!is_prefix("mongodb://"@, rest)) by {
        if is_prefix("mongodb://"@, rest) {
            assert(rest.subrange(0, 10)[8] == '/');
            assert(rest.subrange(0, 10)[9] == '/');
        }
    }
    assert(u.skip(10) =~= rest);
    assert(u.subrange(0, 10) =~= "mongodb://"@);
    assert(is_prefix("mongodb://"@, u));
    assert(strip_all(rest, "mongodb://"@) == rest);
    assert(strip_all(u, "mongodb://"@) == rest);
    let hp = host + seq![':'] + dec;
    assert(lacks(dec, '@') && lacks(dec, '/') && lacks(dec, '?') && lacks(dec, ':')) by {
        assert forall|i: int| 0 <= i < dec.len() implies dec[i] != '@' && dec[i] != '/' && dec[i]
            != '?' && dec[i] != ':' by {
            assert(is_digit(dec[i]));
        }
    }
    assert(lacks(rest, '@'));
    lemma_last_index_none(rest, '@');
    assert(rest =~= hp + seq!['/'] + Seq::<char>::empty());
    assert(lacks(hp, '/'));
    lemma_before_first_at(hp, '/', Seq::<char>::empty());
    assert(lacks(hp, '?'));
    lemma_before_first_none(hp, '?');
    assert(uri_host_port(u) == hp);
    lemma_last_index_at(host, ':', dec);
    assert(hp.take(host.len() as int) =~= host);
    assert(hp.skip(host.len() as int + 1) =~= dec);
    assert(trim_char(host, '[') == host);
    assert(trim_char(host, ']') == host);
    assert(unsigned_part(dec) == dec) by {
        assert(is_digit(dec[0]));
    }
    assert(parse_u16(dec) == Some(port));
}

} // verus!
