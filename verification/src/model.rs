//! The captured-request model: operations, plans, suggestions and the
//! request record itself.

use vstd::prelude::*;
use crate::bson::BsonDoc;
use crate::text::upper;
use crate::types::{
    AppName, CollectionName, ConnId, DatabaseName, DocsExamined, DocsReturned, IndexName, LatencyMs,
    QueryId, TimestampMs,
};

verus! {

/// A field of a sampled collection schema.
pub struct SchemaField {
    pub name: String,
    pub type_str: String,
    pub samples: Vec<String>,
    pub coverage_pct: u8,
}

/// The schema sampled from a collection.
pub struct CollectionSchema {
    pub coll: CollectionName,
    pub fields: Vec<SchemaField>,
    pub sampled_docs: u32,
}

/// All known MongoDB operation types.
#[derive(Debug, PartialEq, Eq)]
pub enum Op {
    Find,
    FindOne,
    Aggregate,
    CountDocuments,
    InsertOne,
    UpdateOne,
    UpdateMany,
    DeleteOne,
    DeleteMany,
    /// Raw command name from the wire protocol.
    Unknown(String),
}

/// The short label shown for an operation.
pub open spec fn op_label(op: Op) -> Seq<char> {
    match op {
        Op::Find => "FIND"@,
        Op::FindOne => "FIND¹"@,
        Op::Aggregate => "AGG"@,
        Op::CountDocuments => "CNT"@,
        Op::InsertOne => "INS"@,
        Op::UpdateOne => "UPD"@,
        Op::UpdateMany => "UPD×"@,
        Op::DeleteOne | Op::DeleteMany => "DEL"@,
        Op::Unknown(s) => upper(s@),
    }
}

/// Reads: find, findOne, aggregate and count.
pub open spec fn op_is_read(op: Op) -> bool {
    op is Find || op is FindOne || op is Aggregate || op is CountDocuments
}

/// Writes that are not deletes.
pub open spec fn op_is_write(op: Op) -> bool {
    op is InsertOne || op is UpdateOne || op is UpdateMany
}

/// Deletes.
pub open spec fn op_is_delete(op: Op) -> bool {
    op is DeleteOne || op is DeleteMany
}

impl Op {
    /// The short label shown for this operation.
    pub fn label(&self) -> (r: String)
        ensures
            r@ == op_label(*self),
    {
        match self {
            Op::Find => "FIND".to_string(),
            Op::FindOne => "FIND¹".to_string(),
            Op::Aggregate => "AGG".to_string(),
            Op::CountDocuments => "CNT".to_string(),
            Op::InsertOne => "INS".to_string(),
            Op::UpdateOne => "UPD".to_string(),
            Op::UpdateMany => "UPD×".to_string(),
            Op::DeleteOne | Op::DeleteMany => "DEL".to_string(),
            Op::Unknown(s) => crate::text::to_upper(s.as_str()),
        }
    }

    pub fn is_read(&self) -> (r: bool)
        ensures
            r == op_is_read(*self),
    {
        matches!(self, Op::Find | Op::FindOne | Op::Aggregate | Op::CountDocuments)
    }

    pub fn is_write(&self) -> (r: bool)
        ensures
            r == op_is_write(*self),
    {
        matches!(self, Op::InsertOne | Op::UpdateOne | Op::UpdateMany)
    }

    pub fn is_delete(&self) -> (r: bool)
        ensures
            r == op_is_delete(*self),
    {
        matches!(self, Op::DeleteOne | Op::DeleteMany)
    }
}

/// An operation is at most one of read, write and delete.
pub proof fn lemma_op_classes_disjoint(op: Op)
    ensures
        !(op_is_read(op) && op_is_write(op)),
        !(op_is_read(op) && op_is_delete(op)),
        !(op_is_write(op) && op_is_delete(op)),
        op_is_read(op) || op_is_write(op) || op_is_delete(op) <==> !(op is Unknown),
{
}

/// Winning query plan; `Unknown` for unrecognised stage names.
#[derive(Debug, PartialEq, Eq)]
pub enum Plan {
    CollScan,
    IxScan(IndexName),
    IdHack,
    IxScanLookup(IndexName),
    /// Unrecognised plan stage, shown as-is.
    Unknown(String),
}

/// The label shown for a plan.
pub open spec fn plan_label(p: Plan) -> Seq<char> {
    match p {
        Plan::CollScan => "COLLSCAN"@,
        Plan::IxScan(_) => "IXSCAN"@,
        Plan::IdHack => "IDHACK"@,
        Plan::IxScanLookup(_) => "IXSCAN+LOOKUP"@,
        Plan::Unknown(s) => s@,
    }
}

impl Plan {
    /// The label shown for this plan.
    pub fn label(&self) -> (r: String)
        ensures
            r@ == plan_label(*self),
    {
        match self {
            Plan::CollScan => "COLLSCAN".to_string(),
            Plan::IxScan(_) => "IXSCAN".to_string(),
            Plan::IdHack => "IDHACK".to_string(),
            Plan::IxScanLookup(_) => "IXSCAN+LOOKUP".to_string(),
            Plan::Unknown(s) => s.clone(),
        }
    }
}

/// Estimated stage timings once a suggested index exists.
#[derive(Debug, Clone, Copy)]
pub struct IndexSuggestion {
    pub ixscan_ms: u32,
    pub fetch_ms: u32,
    pub sort_ms: u32,
    pub limit_ms: u32,
}

/// An improvement the inspector proposes for a request.
#[derive(Debug, Clone, Copy)]
pub enum Suggestion {
    CreateIndex(IndexSuggestion),
}

/// One captured request.
#[derive(Debug)]
pub struct QueryEntry {
    pub id: QueryId,
    pub t_ms: TimestampMs,
    pub latency_ms: LatencyMs,
    pub op: Op,
    pub db: DatabaseName,
    pub coll: CollectionName,
    pub app: AppName,
    pub plan: Option<Plan>,
    pub index: Option<IndexName>,
    pub docs_examined: Option<DocsExamined>,
    pub docs_returned: Option<DocsReturned>,
    pub filter: Option<BsonDoc>,
    pub pipeline: Option<Vec<BsonDoc>>,
    pub update: Option<BsonDoc>,
    pub doc: Option<BsonDoc>,
    pub warn: Option<String>,
    pub slow: bool,
    pub is_system: bool,
    pub conn_id: ConnId,
    pub lsid: Option<String>,
    pub cluster_time: Option<String>,
    pub response_docs: Vec<BsonDoc>,
    pub rejected_plan_count: u8,
    pub suggestions: Vec<Suggestion>,
}

fn clone_docs(v: &Vec<BsonDoc>) -> (r: Vec<BsonDoc>)
    ensures
        r@ == v@,
{
    let mut out: Vec<BsonDoc> = Vec::new();
    let mut i: usize = 0;
    while i < v.len()
        invariant
            0 <= i <= v@.len(),
            out@ == v@.take(i as int),
        decreases v.len() - i,
    {
        out.push(v[i].copy());
        assert(out@ =~= v@.take(i + 1));
        i += 1;
    }
    assert(v@.take(v@.len() as int) =~= v@);
    out
}

fn clone_suggestions(v: &Vec<Suggestion>) -> (r: Vec<Suggestion>)
    ensures
        r@ == v@,
{
    let mut out: Vec<Suggestion> = Vec::new();
    let mut i: usize = 0;
    while i < v.len()
        invariant
            0 <= i <= v@.len(),
            out@ == v@.take(i as int),
        decreases v.len() - i,
    {
        out.push(v[i]);
        assert(out@ =~= v@.take(i + 1));
        i += 1;
    }
    assert(v@.take(v@.len() as int) =~= v@);
    out
}

fn clone_opt_doc(o: &Option<BsonDoc>) -> (r: Option<BsonDoc>)
    ensures
        r == *o,
{
    match o {
        Some(d) => Some(d.copy()),
        None => None,
    }
}

fn clone_opt_string(o: &Option<String>) -> (r: Option<String>)
    ensures
        r == *o,
{
    match o {
        Some(s) => Some(s.clone()),
        None => None,
    }
}

impl Clone for Op {
    fn clone(&self) -> (r: Self)
        ensures
            r == *self,
    {
        match self {
            Op::Find => Op::Find,
            Op::FindOne => Op::FindOne,
            Op::Aggregate => Op::Aggregate,
            Op::CountDocuments => Op::CountDocuments,
            Op::InsertOne => Op::InsertOne,
            Op::UpdateOne => Op::UpdateOne,
            Op::UpdateMany => Op::UpdateMany,
            Op::DeleteOne => Op::DeleteOne,
            Op::DeleteMany => Op::DeleteMany,
            Op::Unknown(s) => Op::Unknown(s.clone()),
        }
    }
}

impl Clone for Plan {
    fn clone(&self) -> (r: Self)
        ensures
            r == *self,
    {
        match self {
            Plan::CollScan => Plan::CollScan,
            Plan::IxScan(n) => Plan::IxScan(n.clone()),
            Plan::IdHack => Plan::IdHack,
            Plan::IxScanLookup(n) => Plan::IxScanLookup(n.clone()),
            Plan::Unknown(s) => Plan::Unknown(s.clone()),
        }
    }
}

/// `a` and `b` are the same request: every field equal, the document
/// lists holding the same documents.
pub open spec fn same_entry(a: QueryEntry, b: QueryEntry) -> bool {
    &&& a.id == b.id && a.t_ms == b.t_ms && a.latency_ms == b.latency_ms && a.op == b.op
    &&& a.db == b.db && a.coll == b.coll && a.app == b.app && a.plan == b.plan && a.index == b.index
    &&& a.docs_examined == b.docs_examined && a.docs_returned == b.docs_returned
    &&& a.filter == b.filter && a.update == b.update && a.doc == b.doc && a.warn == b.warn
    &&& match (a.pipeline, b.pipeline) {
        (Some(x), Some(y)) => x@ == y@,
        (None, None) => true,
        _ => false,
    }
    &&& a.slow == b.slow && a.is_system == b.is_system && a.conn_id == b.conn_id
    &&& a.lsid == b.lsid && a.cluster_time == b.cluster_time
    &&& a.response_docs@ == b.response_docs@
    &&& a.rejected_plan_count == b.rejected_plan_count
    &&& a.suggestions@ == b.suggestions@
}

impl Clone for QueryEntry {
    fn clone(&self) -> (r: Self)
        ensures
            same_entry(r, *self),
    {
        let r = QueryEntry {
            id: self.id,
            t_ms: self.t_ms,
            latency_ms: self.latency_ms,
            op: self.op.clone(),
            db: self.db.clone(),
            coll: self.coll.clone(),
            app: self.app.clone(),
            plan: match &self.plan {
                Some(p) => Some(p.clone()),
                None => None,
            },
            index: match &self.index {
                Some(x) => Some(x.clone()),
                None => None,
            },
            docs_examined: self.docs_examined,
            docs_returned: self.docs_returned,
            filter: clone_opt_doc(&self.filter),
            pipeline: match &self.pipeline {
                Some(v) => Some(clone_docs(v)),
                None => None,
            },
            update: clone_opt_doc(&self.update),
            doc: clone_opt_doc(&self.doc),
            warn: clone_opt_string(&self.warn),
            slow: self.slow,
            is_system: self.is_system,
            conn_id: self.conn_id,
            lsid: clone_opt_string(&self.lsid),
            cluster_time: clone_opt_string(&self.cluster_time),
            response_docs: clone_docs(&self.response_docs),
            rejected_plan_count: self.rejected_plan_count,
            suggestions: clone_suggestions(&self.suggestions),
        };
        r
    }
}

} // verus!
