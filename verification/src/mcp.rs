//! What the MCP tools compute over the captured requests: which requests
//! a listing shows, the index a suggestion creates, and the text of each
//! answer.

use vstd::prelude::*;
use crate::bson::{doc_entries, keys_of, BsonDoc};
use crate::model::{op_label, plan_label, Op, QueryEntry, Suggestion};
use crate::text::{concat, decimal, decimal_string, join_with, joined, str_eq, strs};

verus! {

/// The most requests a listing shows: the limit asked for, fifty by
/// default, never more than five hundred.
pub open spec fn list_limit(limit: Option<u32>) -> nat {
    let l: nat = match limit {
        Some(x) => x as nat,
        None => 50,
    };
    if l < 500 {
        l
    } else {
        500
    }
}

/// The view of an optional text.
pub open spec fn opt_text(o: Option<&str>) -> Option<Seq<char>> {
    match o {
        Some(s) => Some(s@),
        None => None,
    }
}

/// Whether a listing with these filters shows `e`: only requests over a
/// second when slow ones are asked for, and only the database and
/// collection asked for.
pub open spec fn listed(e: QueryEntry, slow_only: bool, db: Option<Seq<char>>, coll: Option<Seq<char>>) -> bool {
    &&& (slow_only ==> e.latency_ms@ > 1000)
    &&& (db matches Some(d) ==> e.db@ == d)
    &&& (coll matches Some(c) ==> e.coll@ == c)
}

/// The requests a listing shows: newest first, those the filters let
/// through, at most the limit.
pub open spec fn listed_requests(
    es: Seq<QueryEntry>,
    limit: Option<u32>,
    slow_only: Option<bool>,
    db: Option<Seq<char>>,
    coll: Option<Seq<char>>,
) -> Seq<QueryEntry> {
    let so = match slow_only {
        Some(b) => b,
        None => false,
    };
    let f = es.reverse().filter(|e: QueryEntry| listed(e, so, db, coll));
    if f.len() > list_limit(limit) {
        f.take(list_limit(limit) as int)
    } else {
        f
    }
}

/// The requests `list_requests` shows.
pub fn select_requests<'a>(
    entries: &'a Vec<QueryEntry>,
    limit: Option<u32>,
    slow_only: Option<bool>,
    db: Option<&str>,
    coll: Option<&str>,
) -> (r: Vec<&'a QueryEntry>)
    ensures
        r@.map_values(|e: &QueryEntry| *e) == listed_requests(
            entries@,
            limit,
            slow_only,
            opt_text(db),
            opt_text(coll),
        ),
{
    let lim: u32 = match limit {
        Some(x) => if x < 500 {
            x
        } else {
            500
        },
        None => 50,
    };
    let so = match slow_only {
        Some(b) => b,
        None => false,
    };
    let ghost pred = |e: QueryEntry| listed(e, so, opt_text(db), opt_text(coll));
    let ghost rev = entries@.reverse();
    let n = entries.len();
    let mut out: Vec<&'a QueryEntry> = Vec::new();
    let mut k: usize = 0;
    while k < n
        invariant
            n == entries@.len(),
            rev == entries@.reverse(),
            pred == (|e: QueryEntry| listed(e, so, opt_text(db), opt_text(coll))),
            0 <= k <= n,
            out@.map_values(|e: &QueryEntry| *e) == rev.take(k as int).filter(pred),
        decreases n - k,
    {
        let e = &entries[n - 1 - k];
        assert(rev[k as int] == *e);
        assert(rev.take(k + 1).drop_last() =~= rev.take(k as int));
        reveal(Seq::filter);
        let mut keep = !so || e.latency_ms.into_inner() > 1000;
        match db {
            Some(d) => {
                if !str_eq(e.db.as_str(), d) {
                    keep = false;
                }
            },
            None => {},
        }
        match coll {
            Some(c) => {
                if !str_eq(e.coll.as_str(), c) {
                    keep = false;
                }
            },
            None => {},
        }
        assert(keep == pred(*e));
        if keep {
            out.push(e);
        }
        assert(out@.map_values(|e: &QueryEntry| *e) =~= rev.take(k + 1).filter(pred));
        k += 1;
    }
    assert(rev.take(n as int) =~= rev);
    out.truncate(lim as usize);
    assert(out@.map_values(|e: &QueryEntry| *e) =~= listed_requests(
        entries@,
        limit,
        slow_only,
        opt_text(db),
        opt_text(coll),
    ));
    out
}

/// The key document of the index suggested for a filter: each key of the
/// filter, in order, ascending.
pub open spec fn index_keys_text(keys: Seq<Seq<char>>) -> Seq<char> {
    "{ "@ + joined(keys.map_values(|k: Seq<char>| "\""@ + k + "\": 1"@), ", "@) + " }"@
}

/// The index suggested for a request: `None` without a filter or with an
/// empty one.
pub open spec fn index_spec(e: QueryEntry) -> Option<Seq<char>> {
    match e.filter {
        Some(f) => if doc_entries(f).len() == 0 {
            None
        } else {
            Some(index_keys_text(keys_of(doc_entries(f))))
        },
        None => None,
    }
}

fn keys_text(f: &BsonDoc) -> (r: String)
    ensures
        r@ == index_keys_text(keys_of(doc_entries(*f))),
{
    let n = f.len();
    let ghost ks = keys_of(doc_entries(*f));
    let ghost parts = ks.map_values(|k: Seq<char>| "\""@ + k + "\": 1"@);
    let mut pairs: Vec<String> = Vec::new();
    let mut i: usize = 0;
    while i < n
        invariant
            n == doc_entries(*f).len(),
            ks == keys_of(doc_entries(*f)),
            parts == ks.map_values(|k: Seq<char>| "\""@ + k + "\": 1"@),
            0 <= i <= n,
            strs(pairs@) == parts.take(i as int),
        decreases n - i,
    {
        match f.get_index(i) {
            Some((k, _)) => {
                let quoted = concat("\"", k.as_str());
                let pair = concat(quoted.as_str(), "\": 1");
                assert(ks[i as int] == k@);
                assert(parts[i as int] == pair@);
                let ghost before = pairs@;
                pairs.push(pair);
                assert(strs(pairs@) =~= strs(before).push(pair@));
                assert(strs(pairs@) =~= parts.take(i + 1));
            },
            None => {},
        }
        i += 1;
    }
    assert(parts.take(n as int) =~= parts);
    let body = join_with(&pairs, ", ");
    let open = concat("{ ", body.as_str());
    concat(open.as_str(), " }")
}

pub fn index_spec_from_entry(e: &QueryEntry) -> (r: Option<String>)
    ensures
        match r {
            Some(s) => index_spec(*e) == Some(s@),
            None => index_spec(*e) is None,
        },
{
    let f = match &e.filter {
        Some(f) => f,
        None => {
            return None;
        },
    };
    if f.is_empty() {
        return None;
    }
    Some(keys_text(f))
}

/// The plan shown in a summary: its label, a dash without one.
pub open spec fn plan_text(p: Option<crate::model::Plan>) -> Seq<char> {
    match p {
        Some(x) => plan_label(x),
        None => "—"@,
    }
}

/// The one-line summary of a request.
pub open spec fn summary_line(e: QueryEntry) -> Seq<char> {
    "["@ + decimal(e.id@ as nat) + "] "@ + op_label(e.op) + " | "@ + e.app@ + " | "@ + e.db@ + "."@
        + e.coll@ + " | "@ + decimal(e.latency_ms@ as nat) + "ms | "@ + plan_text(e.plan) + (if e.slow {
        " SLOW"@
    } else {
        ""@
    }) + (if e.suggestions@.len() > 0 {
        " [index suggestion]"@
    } else {
        ""@
    })
}

pub fn format_entry_summary(e: &QueryEntry) -> (r: String)
    ensures
        r@ == summary_line(*e),
{
    let mut out = "[".to_string();
    out.append(decimal_string(e.id.into_inner()).as_str());
    out.append("] ");
    out.append(e.op.label().as_str());
    out.append(" | ");
    out.append(e.app.as_str());
    out.append(" | ");
    out.append(e.db.as_str());
    out.append(".");
    out.append(e.coll.as_str());
    out.append(" | ");
    out.append(decimal_string(e.latency_ms.into_inner() as u64).as_str());
    out.append("ms | ");
    match &e.plan {
        Some(p) => out.append(p.label().as_str()),
        None => out.append("—"),
    }
    if e.slow {
        out.append(" SLOW");
    } else {
        out.append("");
    }
    if e.suggestions.len() > 0 {
        out.append(" [index suggestion]");
    } else {
        out.append("");
    }
    out
}

/// What the filter of a request is shown as, by operation.
pub open spec fn filter_label(op: Op) -> Seq<char> {
    match op {
        Op::Aggregate => "Pipeline"@,
        Op::InsertOne => "Document"@,
        Op::UpdateOne | Op::UpdateMany => "Update"@,
        _ => "Filter"@,
    }
}

/// The keys shown for a suggested index.
pub open spec fn suggestion_keys(e: QueryEntry) -> Seq<char> {
    match index_spec(e) {
        Some(k) => k,
        None => "(no filter captured)"@,
    }
}

/// A suggestion's stage estimates fit in 32 bits when added up.
pub open spec fn estimate_fits(s: Suggestion) -> bool {
    match s {
        Suggestion::CreateIndex(x) => x.ixscan_ms + x.fetch_ms + x.sort_ms <= u32::MAX,
    }
}

/// The two lines that present suggestion `i`, `s`, of the request `e`.
pub open spec fn suggestion_detail(e: QueryEntry, i: nat, s: Suggestion) -> Seq<Seq<char>> {
    match s {
        Suggestion::CreateIndex(x) => seq![
            "  ["@ + decimal(i) + "] createIndex("@ + suggestion_keys(e) + ") on "@ + e.db@ + "."@
                + e.coll@ + " — estimated gain: ~"@ + decimal((x.ixscan_ms + x.fetch_ms
                + x.sort_ms) as nat) + "ms (IXSCAN "@ + decimal(x.ixscan_ms as nat) + "ms + FETCH "@
                + decimal(x.fetch_ms as nat) + "ms + SORT "@ + decimal(x.sort_ms as nat) + "ms)"@,
            "       → apply_suggestion request_id="@ + decimal(e.id@ as nat) + " suggestion_id="@
                + decimal(i),
        ],
    }
}

/// The lines that present the first `n` suggestions of `e`.
pub open spec fn suggestion_details(e: QueryEntry, n: nat) -> Seq<Seq<char>>
    decreases n,
{
    if n == 0 {
        Seq::empty()
    } else {
        suggestion_details(e, (n - 1) as nat) + suggestion_detail(
            e,
            (n - 1) as nat,
            e.suggestions@[n - 1],
        )
    }
}

/// A line when `b` holds, none otherwise.
pub open spec fn line_if(b: bool, l: Seq<char>) -> Seq<Seq<char>> {
    if b {
        seq![l]
    } else {
        Seq::empty()
    }
}

/// The first lines of the detailed report of a request: id, operation,
/// namespace, app and latency.
pub open spec fn head_lines(e: QueryEntry) -> Seq<Seq<char>> {
    seq![
        "=== Request "@ + decimal(e.id@ as nat) + " ==="@,
        "Operation : "@ + op_label(e.op),
        "Namespace : "@ + e.db@ + "."@ + e.coll@,
        "App       : "@ + e.app@,
        "Latency   : "@ + decimal(e.latency_ms@ as nat) + "ms"@ + (if e.slow {
            " (SLOW)"@
        } else {
            ""@
        }),
    ]
}

/// The plan line of the report, when there is a plan.
pub open spec fn plan_line(e: QueryEntry) -> Seq<Seq<char>> {
    line_if(e.plan is Some, "Plan      : "@ + plan_text(e.plan))
}

/// The index line of the report, when an index was used.
pub open spec fn index_line(e: QueryEntry) -> Seq<Seq<char>> {
    line_if(e.index is Some, "Index     : "@ + e.index->0@)
}

/// The returned-documents line of the report, when counted.
pub open spec fn returned_line(e: QueryEntry) -> Seq<Seq<char>> {
    line_if(e.docs_returned is Some, "Returned  : "@ + decimal(e.docs_returned->0@ as nat) + " docs"@)
}

/// The examined-documents line of the report, when counted.
pub open spec fn examined_line(e: QueryEntry) -> Seq<Seq<char>> {
    line_if(e.docs_examined is Some, "Examined  : "@ + decimal(e.docs_examined->0@ as nat) + " docs"@)
}

/// The filter line of the report, when there is a filter.
pub open spec fn filter_line(e: QueryEntry, filter_json: Seq<char>) -> Seq<Seq<char>> {
    line_if(e.filter is Some, filter_label(e.op) + "   : "@ + filter_json)
}

/// The pipeline line of the report, when there is a pipeline.
pub open spec fn pipeline_line(e: QueryEntry, pipeline_json: Seq<char>) -> Seq<Seq<char>> {
    line_if(e.pipeline is Some, "Pipeline  : "@ + pipeline_json)
}

/// The warning line of the report, when there is a warning.
pub open spec fn warn_line(e: QueryEntry) -> Seq<Seq<char>> {
    line_if(e.warn is Some, "Warning   : "@ + e.warn->0@)
}

/// The lines of the report that present the suggestions.
pub open spec fn suggestion_lines(e: QueryEntry) -> Seq<Seq<char>> {
    if e.suggestions@.len() > 0 {
        seq!["Suggestions:"@] + suggestion_details(e, e.suggestions@.len())
    } else {
        Seq::empty()
    }
}

/// The lines of the detailed report of a request, whose filter and
/// pipeline read as `filter_json` and `pipeline_json`.
pub open spec fn detail_lines(e: QueryEntry, filter_json: Seq<char>, pipeline_json: Seq<char>) -> Seq<
    Seq<char>,
> {
    head_lines(e) + plan_line(e) + index_line(e) + returned_line(e) + examined_line(e) + filter_line(
        e,
        filter_json,
    ) + pipeline_line(e, pipeline_json) + warn_line(e) + suggestion_lines(e)
}

fn push_head_lines(lines: &mut Vec<String>, e: &QueryEntry)
    ensures
        strs(final(lines)@) == strs(old(lines)@) + head_lines(*e),
{
    let ghost before = strs(lines@);
    let id_text = decimal_string(e.id.into_inner());
    lines.push(concat("=== Request ", id_text.as_str()).concat(" ==="));
    lines.push(concat("Operation : ", e.op.label().as_str()));
    lines.push(concat("Namespace : ", e.db.as_str()).concat(".").concat(e.coll.as_str()));
    lines.push(concat("App       : ", e.app.as_str()));
    let lat = decimal_string(e.latency_ms.into_inner() as u64);
    lines.push(
        concat("Latency   : ", lat.as_str()).concat("ms").concat(
            if e.slow {
                " (SLOW)"
            } else {
                ""
            },
        ),
    );
    assert(strs(lines@) =~= before + head_lines(*e));
}

fn push_line_if(lines: &mut Vec<String>, b: bool, l: String)
    ensures
        strs(final(lines)@) == strs(old(lines)@) + line_if(b, l@),
{
    let ghost before = strs(lines@);
    if b {
        lines.push(l);
        assert(strs(lines@) =~= before + seq![l@]);
    } else {
        assert(strs(lines@) =~= before + Seq::<Seq<char>>::empty());
    }
}

fn push_optional_lines(lines: &mut Vec<String>, e: &QueryEntry, filter_json: &str, pipeline_json: &str)
    ensures
        strs(final(lines)@) == strs(old(lines)@) + plan_line(*e) + index_line(*e) + returned_line(*e)
            + examined_line(*e) + filter_line(*e, filter_json@) + pipeline_line(*e, pipeline_json@)
            + warn_line(*e),
{
    let plan = match &e.plan {
        Some(p) => concat("Plan      : ", p.label().as_str()),
        None => String::new(),
    };
    push_line_if(lines, e.plan.is_some(), plan);
    let index = match &e.index {
        Some(x) => concat("Index     : ", x.as_str()),
        None => String::new(),
    };
    push_line_if(lines, e.index.is_some(), index);
    let returned = match &e.docs_returned {
        Some(d) => concat("Returned  : ", decimal_string(d.into_inner()).as_str()).concat(" docs"),
        None => String::new(),
    };
    push_line_if(lines, e.docs_returned.is_some(), returned);
    let examined = match &e.docs_examined {
        Some(d) => concat("Examined  : ", decimal_string(d.into_inner()).as_str()).concat(" docs"),
        None => String::new(),
    };
    push_line_if(lines, e.docs_examined.is_some(), examined);
    let label = match &e.op {
        Op::Aggregate => "Pipeline",
        Op::InsertOne => "Document",
        Op::UpdateOne | Op::UpdateMany => "Update",
        _ => "Filter",
    };
    push_line_if(lines, e.filter.is_some(), concat(label, "   : ").concat(filter_json));
    push_line_if(lines, e.pipeline.is_some(), concat("Pipeline  : ", pipeline_json));
    let warn = match &e.warn {
        Some(w) => concat("Warning   : ", w.as_str()),
        None => String::new(),
    };
    push_line_if(lines, e.warn.is_some(), warn);

}

fn push_suggestion_lines(lines: &mut Vec<String>, e: &QueryEntry)
    requires
        forall|i: int| 0 <= i < e.suggestions@.len() ==> estimate_fits(#[trigger] e.suggestions@[i]),
    ensures
        strs(final(lines)@) == strs(old(lines)@) + suggestion_lines(*e),
{
    let ghost before = strs(lines@);
    if e.suggestions.len() == 0 {
        assert(strs(lines@) =~= before + suggestion_lines(*e));
        return;
    }
    lines.push("Suggestions:".to_string());
    let keys = match index_spec_from_entry(e) {
        Some(k) => k,
        None => "(no filter captured)".to_string(),
    };
    let id_text = decimal_string(e.id.into_inner());
    let mut i: usize = 0;
    while i < e.suggestions.len()
        invariant
            forall|k: int| 0 <= k < e.suggestions@.len() ==> estimate_fits(#[trigger] e.suggestions@[k]),
            0 <= i <= e.suggestions@.len(),
            keys@ == suggestion_keys(*e),
            id_text@ == decimal(e.id@ as nat),
            strs(lines@) == before + seq!["Suggestions:"@] + suggestion_details(*e, i as nat),
        decreases e.suggestions@.len() - i,
    {
        let s = e.suggestions[i];
        assert(estimate_fits(e.suggestions@[i as int]));
        match s {
            Suggestion::CreateIndex(x) => {
                let idx = decimal_string(i as u64);
                let gain = decimal_string((x.ixscan_ms + x.fetch_ms + x.sort_ms) as u64);
                let first = concat("  [", idx.as_str()).concat("] createIndex(").concat(
                    keys.as_str(),
                ).concat(") on ").concat(e.db.as_str()).concat(".").concat(e.coll.as_str()).concat(
                    " — estimated gain: ~",
                ).concat(gain.as_str()).concat("ms (IXSCAN ").concat(
                    decimal_string(x.ixscan_ms as u64).as_str(),
                ).concat("ms + FETCH ").concat(decimal_string(x.fetch_ms as u64).as_str()).concat(
                    "ms + SORT ",
                ).concat(decimal_string(x.sort_ms as u64).as_str()).concat("ms)");
                let second = concat("       → apply_suggestion request_id=", id_text.as_str()).concat(
                    " suggestion_id=",
                ).concat(idx.as_str());
                let ghost mid = strs(lines@);
                lines.push(first);
                lines.push(second);
                assert(strs(lines@) =~= mid + suggestion_detail(*e, i as nat, s));
            },
        }
        i += 1;
    }
}

/// Whether the time estimate of every suggestion of `e` can be summed in
/// 32 bits, as the detail needs.
pub fn estimates_fit(e: &QueryEntry) -> (r: bool)
    ensures
        r == forall|i: int| 0 <= i < e.suggestions@.len() ==> estimate_fits(#[trigger] e.suggestions@[i]),
{
    let mut i: usize = 0;
    while i < e.suggestions.len()
        invariant
            0 <= i <= e.suggestions@.len(),
            forall|k: int| 0 <= k < i ==> estimate_fits(#[trigger] e.suggestions@[k]),
        decreases e.suggestions@.len() - i,
    {
        match e.suggestions[i] {
            Suggestion::CreateIndex(x) => {
                if x.ixscan_ms as u64 + x.fetch_ms as u64 + x.sort_ms as u64 > u32::MAX as u64 {
                    assert(!estimate_fits(e.suggestions@[i as int]));
                    return false;
                }
            },
        }
        i += 1;
    }
    true
}

/// The detailed report of a request; its filter and pipeline are given
/// in their JSON form.
pub fn format_entry_detail(e: &QueryEntry, filter_json: &str, pipeline_json: &str) -> (r: String)
    requires
        forall|i: int| 0 <= i < e.suggestions@.len() ==> estimate_fits(#[trigger] e.suggestions@[i]),
    ensures
        r@ == joined(detail_lines(*e, filter_json@, pipeline_json@), "\n"@),
{
    let mut lines: Vec<String> = Vec::new();
    push_head_lines(&mut lines, e);
    assert(strs(lines@) =~= head_lines(*e));
    push_optional_lines(&mut lines, e, filter_json, pipeline_json);
    push_suggestion_lines(&mut lines, e);
    assert(strs(lines@) =~= detail_lines(*e, filter_json@, pipeline_json@));
    join_with(&lines, "\n")
}

/// Counts by key, keys in order of first appearance: the tally after one
/// more `k`.
pub open spec fn tallied(t: Seq<(Seq<char>, nat)>, k: Seq<char>) -> Seq<(Seq<char>, nat)> {
    if exists|i: int| 0 <= i < t.len() && (#[trigger] t[i]).0 == k {
        let i = choose|i: int| 0 <= i < t.len() && (#[trigger] t[i]).0 == k;
        t.update(i, (k, t[i].1 + 1))
    } else {
        t.push((k, 1nat))
    }
}

/// The tally of the keys `ks`.
pub open spec fn tally_of(ks: Seq<Seq<char>>) -> Seq<(Seq<char>, nat)>
    decreases ks.len(),
{
    if ks.len() == 0 {
        Seq::empty()
    } else {
        tallied(tally_of(ks.drop_last()), ks.last())
    }
}

/// The keys of a tally are distinct.
pub open spec fn distinct_keys(t: Seq<(Seq<char>, nat)>) -> bool {
    forall|i: int, j: int| 0 <= i < j < t.len() ==> (#[trigger] t[i]).0 != (#[trigger] t[j]).0
}

/// The tally as counted here.
pub open spec fn tally_view(t: Seq<(String, usize)>) -> Seq<(Seq<char>, nat)> {
    t.map_values(|p: (String, usize)| (p.0@, p.1 as nat))
}

/// A tally counts each key once, has no more keys than were counted, and
/// no count passes the number of keys counted.
pub proof fn lemma_tally_distinct(ks: Seq<Seq<char>>)
    ensures
        distinct_keys(tally_of(ks)),
        tally_of(ks).len() <= ks.len(),
        forall|i: int| 0 <= i < tally_of(ks).len() ==> (#[trigger] tally_of(ks)[i]).1 <= ks.len(),
    decreases ks.len(),
{
    if ks.len() > 0 {
        lemma_tally_distinct(ks.drop_last());
    }
}

/// Counts the keys `ks` in order of first appearance, as an insertion
/// ordered map from key to count does.
pub fn tally(ks: &Vec<String>) -> (r: Vec<(String, usize)>)
    ensures
        tally_view(r@) == tally_of(strs(ks@)),
{
    let mut out: Vec<(String, usize)> = Vec::new();
    let mut i: usize = 0;
    while i < ks.len()
        invariant
            0 <= i <= ks@.len(),
            tally_view(out@) == tally_of(strs(ks@).take(i as int)),
        decreases ks@.len() - i,
    {
        let ghost pre = strs(ks@).take(i as int);
        assert(strs(ks@).take(i + 1).drop_last() =~= pre);
        assert(strs(ks@).take(i + 1).last() == ks@[i as int]@);
        proof {
            lemma_tally_distinct(pre);
        }
        let k = &ks[i];
        let n = out.len();
        let mut j: usize = 0;
        let mut pos: usize = n;
        while j < n
            invariant_except_break
                pos == n,
            invariant
                n == out@.len(),
                0 <= j <= n,
                forall|x: int| 0 <= x < j ==> (#[trigger] tally_view(out@)[x]).0 != k@,
            ensures
                pos <= n,
                pos < n ==> tally_view(out@)[pos as int].0 == k@,
                forall|x: int| 0 <= x < pos ==> (#[trigger] tally_view(out@)[x]).0 != k@,
            decreases n - j,
        {
            if str_eq(out[j].0.as_str(), k.as_str()) {
                pos = j;
                break;
            }
            j += 1;
        }
        let ghost t = tally_view(out@);
        if pos < n {
            let c = out[pos].1;
            assert(t[pos as int].1 <= pre.len());
            let key = out[pos].0.clone();
            out.set(pos, (key, c + 1));
            proof {
                let w = choose|x: int| 0 <= x < t.len() && (#[trigger] t[x]).0 == k@;
                assert(w == pos as int) by {
                    if w < pos {
                    } else if w > pos {
                        assert(t[pos as int].0 != t[w].0);
                    }
                }
            }
            assert(tally_view(out@) =~= t.update(pos as int, (k@, t[pos as int].1 + 1)));
        } else {
            out.push((k.clone(), 1));
            assert(tally_view(out@) =~= t.push((k@, 1nat)));
        }
        i += 1;
    }
    assert(strs(ks@).take(ks@.len() as int) =~= strs(ks@));
    out
}

/// The answer of `list_requests`, given how many requests were captured
/// and those it shows.
pub open spec fn list_report(total: nat, shown: Seq<QueryEntry>) -> Seq<char> {
    if shown.len() == 0 {
        "No requests captured yet. Ensure your application is connected to the proxy connection string."@
    } else {
        joined(
            seq![
                "Showing "@ + decimal(shown.len()) + " of "@ + decimal(total)
                    + " total captured (newest first):\n"@,
            ] + shown.map_values(|e: QueryEntry| summary_line(e)),
            "\n"@,
        )
    }
}

pub fn list_requests_report(total: usize, shown: &Vec<&QueryEntry>) -> (r: String)
    ensures
        r@ == list_report(total as nat, shown@.map_values(|e: &QueryEntry| *e)),
{
    let ghost sh = shown@.map_values(|e: &QueryEntry| *e);
    if shown.len() == 0 {
        return "No requests captured yet. Ensure your application is connected to the proxy connection string.".to_string();
    }
    let mut lines: Vec<String> = Vec::new();
    let head = concat("Showing ", decimal_string(shown.len() as u64).as_str()).concat(" of ").concat(
        decimal_string(total as u64).as_str(),
    ).concat(" total captured (newest first):\n");
    lines.push(head);
    let ghost first = strs(lines@);
    let mut i: usize = 0;
    while i < shown.len()
        invariant
            0 <= i <= shown@.len(),
            sh == shown@.map_values(|e: &QueryEntry| *e),
            strs(lines@) == first + sh.take(i as int).map_values(|e: QueryEntry| summary_line(e)),
        decreases shown@.len() - i,
    {
        let ghost before = strs(lines@);
        lines.push(format_entry_summary(shown[i]));
        assert(sh.take(i + 1).map_values(|e: QueryEntry| summary_line(e)) =~= sh.take(i as int).map_values(
            |e: QueryEntry| summary_line(e),
        ).push(summary_line(sh[i as int])));
        assert(strs(lines@) =~= before.push(summary_line(sh[i as int])));
        i += 1;
    }
    assert(sh.take(shown@.len() as int) =~= sh);
    assert(strs(lines@) =~= seq![
        "Showing "@ + decimal(sh.len()) + " of "@ + decimal(total as nat)
            + " total captured (newest first):\n"@,
    ] + sh.map_values(|e: QueryEntry| summary_line(e)));
    join_with(&lines, "\n")
}

/// The number of slow requests among `es`.
pub open spec fn slow_count(es: Seq<QueryEntry>) -> nat {
    es.filter(|e: QueryEntry| e.slow).len()
}

/// The number of requests among `es` that come with a suggestion.
pub open spec fn suggested_count(es: Seq<QueryEntry>) -> nat {
    es.filter(|e: QueryEntry| e.suggestions@.len() > 0).len()
}

/// The line of a tallied key: indented, the key, `sep`, the count, `tail`.
pub open spec fn tally_line(p: (Seq<char>, nat), sep: Seq<char>, tail: Seq<char>) -> Seq<char> {
    "  "@ + p.0 + sep + decimal(p.1) + tail
}

/// The lines of a tally.
pub open spec fn tally_lines(t: Seq<(Seq<char>, nat)>, sep: Seq<char>, tail: Seq<char>) -> Seq<Seq<char>> {
    t.map_values(|p: (Seq<char>, nat)| tally_line(p, sep, tail))
}

/// The operation labels of `es`.
pub open spec fn op_labels(es: Seq<QueryEntry>) -> Seq<Seq<char>> {
    es.map_values(|e: QueryEntry| op_label(e.op))
}

/// The answer of `get_stats`.
pub open spec fn stats_report_text(es: Seq<QueryEntry>) -> Seq<char> {
    if es.len() == 0 {
        "No requests captured yet."@
    } else {
        joined(
            seq![
                "Total captured   : "@ + decimal(es.len()),
                "Slow (>1000ms)   : "@ + decimal(slow_count(es)),
                "With suggestions : "@ + decimal(suggested_count(es)),
                ""@,
                "By operation type:"@,
            ] + tally_lines(tally_of(op_labels(es)), ": "@, ""@),
            "\n"@,
        )
    }
}

pub(crate) fn count_slow(es: &Vec<QueryEntry>) -> (r: usize)
    ensures
        r == slow_count(es@),
{
    let mut c: usize = 0;
    let mut i: usize = 0;
    while i < es.len()
        invariant
            0 <= i <= es@.len(),
            c == slow_count(es@.take(i as int)),
            c <= i,
        decreases es@.len() - i,
    {
        assert(es@.take(i + 1).drop_last() =~= es@.take(i as int));
        reveal(Seq::filter);
        if es[i].slow {
            c += 1;
        }
        i += 1;
    }
    assert(es@.take(es@.len() as int) =~= es@);
    c
}

fn count_with_suggestions(es: &Vec<QueryEntry>) -> (r: usize)
    ensures
        r == suggested_count(es@),
{
    let mut c: usize = 0;
    let mut i: usize = 0;
    while i < es.len()
        invariant
            0 <= i <= es@.len(),
            c == suggested_count(es@.take(i as int)),
            c <= i,
        decreases es@.len() - i,
    {
        assert(es@.take(i + 1).drop_last() =~= es@.take(i as int));
        reveal(Seq::filter);
        if es[i].suggestions.len() > 0 {
            c += 1;
        }
        i += 1;
    }
    assert(es@.take(es@.len() as int) =~= es@);
    c
}

fn push_tally_lines(lines: &mut Vec<String>, t: &Vec<(String, usize)>, sep: &str, tail: &str)
    ensures
        strs(final(lines)@) == strs(old(lines)@) + tally_lines(tally_view(t@), sep@, tail@),
{
    let ghost start = strs(lines@);
    let ghost want = tally_lines(tally_view(t@), sep@, tail@);
    let mut i: usize = 0;
    while i < t.len()
        invariant
            0 <= i <= t@.len(),
            want == tally_lines(tally_view(t@), sep@, tail@),
            strs(lines@) == start + want.take(i as int),
        decreases t@.len() - i,
    {
        let count = decimal_string(t[i].1 as u64);
        let line = concat("  ", t[i].0.as_str()).concat(sep).concat(count.as_str()).concat(tail);
        assert(tally_view(t@)[i as int] == (t@[i as int].0@, t@[i as int].1 as nat));
        assert(line@ == want[i as int]);
        let ghost before = strs(lines@);
        lines.push(line);
        assert(strs(lines@) =~= before.push(line@));
        assert(want.take(i + 1) =~= want.take(i as int).push(want[i as int]));
        i += 1;
    }
    assert(want.take(t@.len() as int) =~= want);
}

pub fn stats_report(es: &Vec<QueryEntry>) -> (r: String)
    ensures
        r@ == stats_report_text(es@),
{
    if es.len() == 0 {
        return "No requests captured yet.".to_string();
    }
    let mut labels: Vec<String> = Vec::new();
    let mut i: usize = 0;
    while i < es.len()
        invariant
            0 <= i <= es@.len(),
            strs(labels@) == op_labels(es@).take(i as int),
        decreases es@.len() - i,
    {
        let l = es[i].op.label();
        assert(l@ == op_label(es@[i as int].op));
        let ghost before = strs(labels@);
        labels.push(l);
        assert(strs(labels@) =~= before.push(l@));
        assert(op_labels(es@).take(i + 1) =~= op_labels(es@).take(i as int).push(l@));
        i += 1;
    }
    assert(op_labels(es@).take(es@.len() as int) =~= op_labels(es@));
    let counts = tally(&labels);
    let mut lines: Vec<String> = Vec::new();
    lines.push(concat("Total captured   : ", decimal_string(es.len() as u64).as_str()));
    lines.push(concat("Slow (>1000ms)   : ", decimal_string(count_slow(es) as u64).as_str()));
    lines.push(
        concat("With suggestions : ", decimal_string(count_with_suggestions(es) as u64).as_str()),
    );
    lines.push(String::new());
    lines.push("By operation type:".to_string());
    proof {
        reveal_strlit("");
    }
    let ghost head = strs(lines@);
    assert(head.len() == 5);
    assert(head[0] == "Total captured   : "@ + decimal(es@.len()));
    assert(head[1] == "Slow (>1000ms)   : "@ + decimal(slow_count(es@)));
    assert(head[2] == "With suggestions : "@ + decimal(suggested_count(es@)));
    assert(head[3] == ""@);
    assert(head[4] == "By operation type:"@);
    assert(head =~= seq![
        "Total captured   : "@ + decimal(es@.len()),
        "Slow (>1000ms)   : "@ + decimal(slow_count(es@)),
        "With suggestions : "@ + decimal(suggested_count(es@)),
        ""@,
        "By operation type:"@,
    ]);
    assert(strs(labels@) == op_labels(es@));
    assert(tally_view(counts@) == tally_of(op_labels(es@)));
    push_tally_lines(&mut lines, &counts, ": ", "");
    assert(strs(lines@) =~= seq![
        "Total captured   : "@ + decimal(es@.len()),
        "Slow (>1000ms)   : "@ + decimal(slow_count(es@)),
        "With suggestions : "@ + decimal(suggested_count(es@)),
        ""@,
        "By operation type:"@,
    ] + tally_lines(tally_of(op_labels(es@)), ": "@, ""@));
    join_with(&lines, "\n")
}

/// The namespaces of `es`: database and collection joined by a dot.
pub open spec fn namespaces_of(es: Seq<QueryEntry>) -> Seq<Seq<char>> {
    es.map_values(|e: QueryEntry| e.db@ + "."@ + e.coll@)
}

/// The answer of `list_namespaces`.
pub open spec fn namespaces_report_text(es: Seq<QueryEntry>) -> Seq<char> {
    let t = tally_of(namespaces_of(es));
    if t.len() == 0 {
        "No namespaces seen yet."@
    } else {
        joined(
            seq![decimal(t.len()) + " namespace(s):\n"@] + tally_lines(t, " — "@, " queries"@),
            "\n"@,
        )
    }
}

pub fn namespaces_report(es: &Vec<QueryEntry>) -> (r: String)
    ensures
        r@ == namespaces_report_text(es@),
{
    let mut keys: Vec<String> = Vec::new();
    let mut i: usize = 0;
    while i < es.len()
        invariant
            0 <= i <= es@.len(),
            strs(keys@) == namespaces_of(es@).take(i as int),
        decreases es@.len() - i,
    {
        let k = concat(es[i].db.as_str(), ".").concat(es[i].coll.as_str());
        let ghost before = strs(keys@);
        keys.push(k);
        assert(strs(keys@) =~= before.push(k@));
        assert(namespaces_of(es@).take(i + 1) =~= namespaces_of(es@).take(i as int).push(k@));
        i += 1;
    }
    assert(namespaces_of(es@).take(es@.len() as int) =~= namespaces_of(es@));
    let counts = tally(&keys);
    let ghost t = tally_of(namespaces_of(es@));
    assert(strs(keys@) == namespaces_of(es@));
    assert(tally_view(counts@) == t);
    assert(t.len() == counts@.len());
    if counts.len() == 0 {
        return "No namespaces seen yet.".to_string();
    }
    let mut lines: Vec<String> = Vec::new();
    lines.push(decimal_string(counts.len() as u64).concat(" namespace(s):\n"));
    let ghost head = strs(lines@);
    assert(head =~= seq![decimal(t.len()) + " namespace(s):\n"@]);
    push_tally_lines(&mut lines, &counts, " — ", " queries");
    assert(strs(lines@) =~= head + tally_lines(tally_of(namespaces_of(es@)), " — "@, " queries"@));
    join_with(&lines, "\n")
}

/// The line of a recommendation: suggestion `i`, `s`, of the request `e`.
pub open spec fn recommendation_line(e: QueryEntry, i: nat, s: Suggestion) -> Seq<char> {
    match s {
        Suggestion::CreateIndex(x) => "  [suggestion "@ + decimal(i) + "] createIndex("@
            + suggestion_keys(e) + ") on "@ + e.db@ + "."@ + e.coll@ + " — estimated: IXSCAN "@
            + decimal(x.ixscan_ms as nat) + "ms + FETCH "@ + decimal(x.fetch_ms as nat) + "ms + SORT "@
            + decimal(x.sort_ms as nat) + "ms (currently "@ + decimal(e.latency_ms@ as nat) + "ms)"@,
    }
}

/// The recommendation lines of the first `n` suggestions of `e`.
pub open spec fn recommendation_lines(e: QueryEntry, n: nat) -> Seq<Seq<char>>
    decreases n,
{
    if n == 0 {
        Seq::empty()
    } else {
        recommendation_lines(e, (n - 1) as nat).push(
            recommendation_line(e, (n - 1) as nat, e.suggestions@[n - 1]),
        )
    }
}

/// The lines that present the requests `es`: each summary, then its
/// recommendations.
pub open spec fn recommendation_block(es: Seq<QueryEntry>) -> Seq<Seq<char>>
    decreases es.len(),
{
    if es.len() == 0 {
        Seq::empty()
    } else {
        recommendation_block(es.drop_last()) + seq![summary_line(es.last())] + recommendation_lines(
            es.last(),
            es.last().suggestions@.len(),
        )
    }
}

/// The answer of `get_recommendations`.
pub open spec fn recommendations_report_text(es: Seq<QueryEntry>) -> Seq<char> {
    let w = es.filter(|e: QueryEntry| e.suggestions@.len() > 0);
    if w.len() == 0 {
        "No index recommendations found. Either no COLLSCAN queries captured yet, or all queries are using indexes."@
    } else {
        joined(
            seq![decimal(w.len()) + " request(s) have index recommendations:\n"@] + recommendation_block(w),
            "\n"@,
        )
    }
}

fn push_recommendations(lines: &mut Vec<String>, e: &QueryEntry)
    ensures
        strs(final(lines)@) == strs(old(lines)@) + seq![summary_line(*e)] + recommendation_lines(
            *e,
            e.suggestions@.len(),
        ),
{
    let ghost start = strs(lines@);
    lines.push(format_entry_summary(e));
    let ghost first = strs(lines@);
    assert(first =~= start + seq![summary_line(*e)]);
    let keys = match index_spec_from_entry(e) {
        Some(k) => k,
        None => "(no filter captured)".to_string(),
    };
    let lat = decimal_string(e.latency_ms.into_inner() as u64);
    let mut i: usize = 0;
    while i < e.suggestions.len()
        invariant
            0 <= i <= e.suggestions@.len(),
            keys@ == suggestion_keys(*e),
            lat@ == decimal(e.latency_ms@ as nat),
            strs(lines@) == first + recommendation_lines(*e, i as nat),
        decreases e.suggestions@.len() - i,
    {
        match e.suggestions[i] {
            Suggestion::CreateIndex(x) => {
                let line = concat("  [suggestion ", decimal_string(i as u64).as_str()).concat(
                    "] createIndex(",
                ).concat(keys.as_str()).concat(") on ").concat(e.db.as_str()).concat(".").concat(
                    e.coll.as_str(),
                ).concat(" — estimated: IXSCAN ").concat(decimal_string(x.ixscan_ms as u64).as_str()).concat(
                    "ms + FETCH ",
                ).concat(decimal_string(x.fetch_ms as u64).as_str()).concat("ms + SORT ").concat(
                    decimal_string(x.sort_ms as u64).as_str(),
                ).concat("ms (currently ").concat(lat.as_str()).concat("ms)");
                let ghost before = strs(lines@);
                assert(line@ == recommendation_line(*e, i as nat, e.suggestions@[i as int]));
                lines.push(line);
                assert(strs(lines@) =~= before.push(line@));
            },
        }
        i += 1;
    }
}

pub fn recommendations_report(es: &Vec<QueryEntry>) -> (r: String)
    ensures
        r@ == recommendations_report_text(es@),
{
    let ghost p = |e: QueryEntry| e.suggestions@.len() > 0;
    let mut with: Vec<&QueryEntry> = Vec::new();
    let mut i: usize = 0;
    while i < es.len()
        invariant
            p == (|e: QueryEntry| e.suggestions@.len() > 0),
            0 <= i <= es@.len(),
            with@.map_values(|e: &QueryEntry| *e) == es@.take(i as int).filter(p),
        decreases es@.len() - i,
    {
        assert(es@.take(i + 1).drop_last() =~= es@.take(i as int));
        reveal(Seq::filter);
        if es[i].suggestions.len() > 0 {
            with.push(&es[i]);
        }
        assert(with@.map_values(|e: &QueryEntry| *e) =~= es@.take(i + 1).filter(p));
        i += 1;
    }
    assert(es@.take(es@.len() as int) =~= es@);
    let ghost w = es@.filter(p);
    if with.len() == 0 {
        return "No index recommendations found. Either no COLLSCAN queries captured yet, or all queries are using indexes.".to_string();
    }
    let mut lines: Vec<String> = Vec::new();
    lines.push(decimal_string(with.len() as u64).concat(" request(s) have index recommendations:\n"));
    let ghost head = strs(lines@);
    assert(w.len() == with@.len());
    assert(head =~= seq![decimal(w.len()) + " request(s) have index recommendations:\n"@]);
    let mut k: usize = 0;
    while k < with.len()
        invariant
            0 <= k <= with@.len(),
            w == with@.map_values(|e: &QueryEntry| *e),
            strs(lines@) == head + recommendation_block(w.take(k as int)),
        decreases with@.len() - k,
    {
        assert(w.take(k + 1).drop_last() =~= w.take(k as int));
        assert(w.take(k + 1).last() == *with[k as int]);
        push_recommendations(&mut lines, with[k]);
        k += 1;
    }
    assert(w.take(with@.len() as int) =~= w);
    assert(strs(lines@) == seq![decimal(w.len()) + " request(s) have index recommendations:\n"@]
        + recommendation_block(w));
    join_with(&lines, "\n")
}

/// Position of the first request of `es[i..]` with id `id`.
pub open spec fn request_pos_from(es: Seq<QueryEntry>, id: u64, i: int) -> Option<int>
    decreases es.len() - i,
{
    if 0 <= i < es.len() {
        if es[i].id@ == id {
            Some(i)
        } else {
            request_pos_from(es, id, i + 1)
        }
    } else {
        None
    }
}

/// Position of the first request of `es` with id `id`.
pub open spec fn request_pos(es: Seq<QueryEntry>, id: u64) -> Option<int> {
    request_pos_from(es, id, 0)
}

/// The first request of `es` with id `id`.
pub fn find_request(es: &Vec<QueryEntry>, id: u64) -> (r: Option<usize>)
    ensures
        match r {
            Some(i) => i < es@.len() && es@[i as int].id@ == id && forall|j: int| 0 <= j < i ==> (#[trigger] es@[j]).id@ != id,
            None => forall|j: int| 0 <= j < es@.len() ==> (#[trigger] es@[j]).id@ != id,
        },
        match r {
            Some(i) => request_pos(es@, id) == Some(i as int),
            None => request_pos(es@, id) is None,
        },
{
    let mut i: usize = 0;
    while i < es.len()
        invariant
            0 <= i <= es@.len(),
            forall|j: int| 0 <= j < i ==> (#[trigger] es@[j]).id@ != id,
            request_pos(es@, id) == request_pos_from(es@, id, i as int),
        decreases es@.len() - i,
    {
        if es[i].id.into_inner() == id {
            return Some(i);
        }
        i += 1;
    }
    None
}

/// The answer when no captured request has id `id`.
pub open spec fn no_request_text(id: u64) -> Seq<char> {
    "No request found with ID "@ + decimal(id as nat) + ". Use list_requests to see available IDs."@
}

pub fn no_request_report(id: u64) -> (r: String)
    ensures
        r@ == no_request_text(id),
{
    concat("No request found with ID ", decimal_string(id).as_str()).concat(
        ". Use list_requests to see available IDs.",
    )
}

/// The answer of `apply_suggestion` for suggestion `sid` of request `rid`.
pub open spec fn apply_report_text(es: Seq<QueryEntry>, rid: u64, sid: u32) -> Seq<char> {
    if forall|j: int| 0 <= j < es.len() ==> (#[trigger] es[j]).id@ != rid {
        no_request_text(rid)
    } else {
        let i = choose|i: int| 0 <= i < es.len() && es[i].id@ == rid && forall|j: int| 0 <= j < i ==> (#[trigger] es[j]).id@ != rid;
        let e = es[i];
        if sid >= e.suggestions@.len() {
            "No suggestion with index "@ + decimal(sid as nat) + " for request "@ + decimal(rid as nat)
                + ". Use get_request to see available suggestions."@
        } else {
            match index_spec(e) {
                Some(keys) => "Run in mongosh against the `"@ + e.db@ + "` database:\n\ndb."@ + e.coll@
                    + ".createIndex("@ + keys + ")\n\nOr with explicit database:\n\ndb.getSiblingDB(\""@
                    + e.db@ + "\")."@ + e.coll@ + ".createIndex("@ + keys + ")"@,
                None => "Cannot generate createIndex command: no filter data was captured for this request. Ensure the proxy intercepted the request before generating suggestions."@,
            }
        }
    }
}

pub fn apply_suggestion_report(es: &Vec<QueryEntry>, rid: u64, sid: u32) -> (r: String)
    ensures
        r@ == apply_report_text(es@, rid, sid),
{
    let i = match find_request(es, rid) {
        Some(i) => i,
        None => {
            return no_request_report(rid);
        },
    };
    let e = &es[i];
    proof {
        let c = choose|k: int| 0 <= k < es@.len() && es@[k].id@ == rid && forall|j: int| 0 <= j < k ==> (#[trigger] es@[j]).id@ != rid;
        assert(c == i as int) by {
            if c < i {
                assert(es@[c].id@ != rid);
            } else if c > i {
                assert(es@[i as int].id@ != rid);
            }
        }
    }
    if (sid as usize) >= e.suggestions.len() {
        return concat("No suggestion with index ", decimal_string(sid as u64).as_str()).concat(
            " for request ",
        ).concat(decimal_string(rid).as_str()).concat(
            ". Use get_request to see available suggestions.",
        );
    }
    match index_spec_from_entry(e) {
        Some(keys) => {
            let db = e.db.as_str();
            let coll = e.coll.as_str();
            concat("Run in mongosh against the `", db).concat("` database:\n\ndb.").concat(coll).concat(
                ".createIndex(",
            ).concat(keys.as_str()).concat(")\n\nOr with explicit database:\n\ndb.getSiblingDB(\"").concat(
                db,
            ).concat("\").").concat(coll).concat(".createIndex(").concat(keys.as_str()).concat(")")
        },
        None => "Cannot generate createIndex command: no filter data was captured for this request. Ensure the proxy intercepted the request before generating suggestions.".to_string(),
    }
}


/// Whether a request has id `key`.
pub open spec fn has_id(key: u64) -> spec_fn(QueryEntry) -> bool {
    |e: QueryEntry| e.id@ == key
}

/// The requests of `es` with id `key`, in their order.
pub open spec fn with_id(es: Seq<QueryEntry>, key: u64) -> Seq<QueryEntry> {
    es.filter(has_id(key))
}

/// Ids never decrease along `es`.
pub open spec fn ids_ascending(es: Seq<QueryEntry>) -> bool {
    forall|i: int, j: int| 0 <= i < j < es.len() ==> (#[trigger] es[i]).id@ <= (#[trigger] es[j]).id@
}

/// A sequence without a request of id `key` has none to keep.
proof fn lemma_with_id_none(s: Seq<QueryEntry>, key: u64)
    requires
        forall|i: int| 0 <= i < s.len() ==> (#[trigger] s[i]).id@ != key,
    ensures
        with_id(s, key) == Seq::<QueryEntry>::empty(),
    decreases s.len(),
{
    if s.len() > 0 {
        lemma_with_id_none(s.drop_last(), key);
        s.drop_last().lemma_filter_push(s.last(), has_id(key));
        assert(s.drop_last().push(s.last()) =~= s);
    }
}

/// Inserting `e` after every request of id at most its own, before every
/// larger one, adds it last among the requests of its id and leaves the
/// others as they were.
proof fn lemma_with_id_insert(s: Seq<QueryEntry>, pos: int, e: QueryEntry, key: u64)
    requires
        0 <= pos <= s.len(),
        forall|i: int| 0 <= i < pos ==> (#[trigger] s[i]).id@ <= e.id@,
        forall|i: int| pos <= i < s.len() ==> (#[trigger] s[i]).id@ > e.id@,
    ensures
        with_id(s.insert(pos, e), key) == if e.id@ == key {
            with_id(s, key).push(e)
        } else {
            with_id(s, key)
        },
{
    let p = has_id(key);
    let a = s.take(pos);
    let b = s.skip(pos);
    assert(s =~= a + b);
    assert(s.insert(pos, e) =~= a.push(e) + b);
    Seq::filter_distributes_over_add(a, b, p);
    Seq::filter_distributes_over_add(a.push(e), b, p);
    a.lemma_filter_push(e, p);
    if e.id@ == key {
        assert forall|i: int| 0 <= i < b.len() implies (#[trigger] b[i]).id@ != key by {
            assert(b[i] == s[pos + i]);
        }
        lemma_with_id_none(b, key);
        assert(a.filter(p) + b.filter(p) =~= a.filter(p));
        assert(a.filter(p).push(e) + b.filter(p) =~= a.filter(p).push(e));
    }
}

/// The requests of `entries` ordered by id; requests of the same id keep
/// their order.
pub fn in_id_order(entries: Vec<QueryEntry>) -> (r: Vec<QueryEntry>)
    ensures
        r@.len() == entries@.len(),
        ids_ascending(r@),
        forall|key: u64| #[trigger] with_id(r@, key) == with_id(entries@, key),
{
    let ghost all = entries@;
    let mut rest = entries;
    let mut pending: Vec<QueryEntry> = Vec::new();
    while rest.len() > 0
        invariant
            pending@ + rest@.reverse() == all.reverse(),
        decreases rest@.len(),
    {
        let ghost before = rest@;
        let e = rest.pop().unwrap();
        proof {
            assert(before == rest@.push(e));
            assert(before.reverse() =~= seq![e] + rest@.reverse());
        }
        let ghost p = pending@;
        pending.push(e);
        assert(pending@ + rest@.reverse() =~= p + (seq![e] + rest@.reverse()));
    }
    assert(pending@ =~= all.reverse());
    let mut out: Vec<QueryEntry> = Vec::new();
    let ghost mut k: int = 0;
    while pending.len() > 0
        invariant
            0 <= k <= all.len(),
            pending@.reverse() == all.skip(k),
            out@.len() == k,
            ids_ascending(out@),
            forall|key: u64| #[trigger] with_id(out@, key) == with_id(all.take(k), key),
        decreases pending@.len(),
    {
        let ghost before = pending@;
        let e = pending.pop().unwrap();
        proof {
            assert(before == pending@.push(e));
            assert(before.reverse() =~= seq![e] + pending@.reverse());
            assert(all.skip(k)[0] == e);
            assert(all.skip(k + 1) =~= all.skip(k).skip(1));
            assert(all.take(k + 1) =~= all.take(k).push(e));
        }
        let id = e.id.into_inner();
        let mut pos: usize = 0;
        while pos < out.len() && out[pos].id.into_inner() <= id
            invariant
                0 <= pos <= out@.len(),
                forall|i: int| 0 <= i < pos ==> (#[trigger] out@[i]).id@ <= id,
            decreases out@.len() - pos,
        {
            pos += 1;
        }
        let ghost old_out = out@;
        proof {
            assert forall|i: int| pos <= i < old_out.len() implies (#[trigger] old_out[i]).id@ > id by {
                assert(old_out[pos as int].id@ > id);
                if i > pos {
                    assert(old_out[pos as int].id@ <= old_out[i].id@);
                }
            }
            assert forall|key: u64| #[trigger] with_id(old_out.insert(pos as int, e), key) == with_id(
                all.take(k + 1),
                key,
            ) by {
                lemma_with_id_insert(old_out, pos as int, e, key);
                all.take(k).lemma_filter_push(e, has_id(key));
            }
        }
        out.insert(pos, e);
        proof {
            assert(out@ =~= old_out.insert(pos as int, e));
            assert forall|i: int, j: int| 0 <= i < j < out@.len() implies (#[trigger] out@[i]).id@
                <= (#[trigger] out@[j]).id@ by {
                if j < pos {
                    assert(out@[i] == old_out[i] && out@[j] == old_out[j]);
                } else if j == pos {
                    assert(out@[i] == old_out[i]);
                } else if i < pos {
                    assert(out@[i] == old_out[i] && out@[j] == old_out[j - 1]);
                } else if i == pos {
                    assert(out@[j] == old_out[j - 1]);
                } else {
                    assert(out@[i] == old_out[i - 1] && out@[j] == old_out[j - 1]);
                }
            }
            k = k + 1;
        }
    }
    assert(all.take(all.len() as int) =~= all);
    out
}


/// The address of a capture proxy on local port `port`.
pub open spec fn proxy_address(port: u16) -> Seq<char> {
    "mongodb://127.0.0.1:"@ + decimal(port as nat) + "/"@
}

fn proxy_address_text(port: u16) -> (r: String)
    ensures
        r@ == proxy_address(port),
{
    concat("mongodb://127.0.0.1:", decimal_string(port as u64).as_str()).concat("/")
}

/// The answer of `add_connection` once connection `id` captures `uri`
/// through a proxy on `port`.
pub open spec fn connection_added_text(id: u64, name: Seq<char>, port: u16, uri: Seq<char>) -> Seq<
    char,
> {
    "Connection added (ID: "@ + decimal(id as nat) + ").\nName: "@ + name
        + "\nProxy connection string: "@ + proxy_address(port)
        + "\n\nPoint your application at the proxy URI instead of "@ + uri
        + " to start capturing traffic."@
}

pub fn connection_added_report(id: u64, name: &str, proxy_port: u16, upstream_uri: &str) -> (r:
    String)
    ensures
        r@ == connection_added_text(id, name@, proxy_port, upstream_uri@),
{
    let addr = proxy_address_text(proxy_port);
    concat("Connection added (ID: ", decimal_string(id).as_str()).concat(").\nName: ").concat(
        name,
    ).concat("\nProxy connection string: ").concat(addr.as_str()).concat(
        "\n\nPoint your application at the proxy URI instead of ",
    ).concat(upstream_uri).concat(" to start capturing traffic.")
}

/// One intercepted connection as `list_connections` shows it.
pub struct ConnectionRow {
    pub id: u64,
    pub name: String,
    pub upstream_uri: String,
    pub proxy_port: u16,
    /// How many requests it holds.
    pub requests: usize,
}

/// The line of one connection.
pub open spec fn connection_line(c: ConnectionRow) -> Seq<char> {
    "["@ + decimal(c.id as nat) + "] "@ + c.name@ + " → "@ + c.upstream_uri@ + " | proxy: "@
        + proxy_address(c.proxy_port) + " | "@ + decimal(c.requests as nat)
        + " requests captured"@
}

/// The answer of `list_connections`: a count, then a line per connection.
pub open spec fn connections_text(cs: Seq<ConnectionRow>) -> Seq<char> {
    if cs.len() == 0 {
        "No connections. Use add_connection to start intercepting traffic."@
    } else {
        joined(
            seq![decimal(cs.len()) + " connection(s):\n"@] + cs.map_values(
                |c: ConnectionRow| connection_line(c),
            ),
            "\n"@,
        )
    }
}

pub fn connections_report(cs: &Vec<ConnectionRow>) -> (r: String)
    ensures
        r@ == connections_text(cs@),
{
    if cs.len() == 0 {
        return "No connections. Use add_connection to start intercepting traffic.".to_string();
    }
    let mut lines: Vec<String> = Vec::new();
    lines.push(concat(decimal_string(cs.len() as u64).as_str(), " connection(s):\n"));
    let ghost first = strs(lines@);
    let ghost all = cs@.map_values(|c: ConnectionRow| connection_line(c));
    let mut i: usize = 0;
    while i < cs.len()
        invariant
            0 <= i <= cs@.len(),
            all == cs@.map_values(|c: ConnectionRow| connection_line(c)),
            strs(lines@) == first + all.take(i as int),
        decreases cs@.len() - i,
    {
        let c = &cs[i];
        let line = concat("[", decimal_string(c.id).as_str()).concat("] ").concat(
            c.name.as_str(),
        ).concat(" → ").concat(c.upstream_uri.as_str()).concat(" | proxy: ").concat(
            proxy_address_text(c.proxy_port).as_str(),
        ).concat(" | ").concat(decimal_string(c.requests as u64).as_str()).concat(
            " requests captured",
        );
        let ghost before = strs(lines@);
        lines.push(line);
        assert(all[i as int] == line@);
        assert(strs(lines@) =~= before.push(line@));
        assert(all.take(i + 1) =~= all.take(i as int).push(all[i as int]));
        i += 1;
    }
    assert(all.take(cs@.len() as int) =~= all);
    assert(strs(lines@) =~= seq![decimal(cs@.len()) + " connection(s):\n"@] + all);
    join_with(&lines, "\n")
}

/// The answer when there is no connection with id `id`.
pub open spec fn unknown_connection_text(id: u64) -> Seq<char> {
    "No connection with ID "@ + decimal(id as nat)
        + ". Use list_connections to see available connections."@
}

pub fn unknown_connection_report(id: u64) -> (r: String)
    ensures
        r@ == unknown_connection_text(id),
{
    concat("No connection with ID ", decimal_string(id).as_str()).concat(
        ". Use list_connections to see available connections.",
    )
}

/// The answer of `remove_connection` once connection `id` is gone.
pub open spec fn connection_removed_text(id: u64, name: Seq<char>) -> Seq<char> {
    "Connection "@ + decimal(id as nat) + " ("@ + name + ") removed."@
}

pub fn connection_removed_report(id: u64, name: &str) -> (r: String)
    ensures
        r@ == connection_removed_text(id, name@),
{
    concat("Connection ", decimal_string(id).as_str()).concat(" (").concat(name).concat(
        ") removed.",
    )
}

/// The answer of `get_connection_string` for a proxy on `port` in front
/// of `uri`.
pub open spec fn connection_string_text(port: u16, uri: Seq<char>) -> Seq<char> {
    proxy_address(port) + "\n\nUse this instead of "@ + uri
        + " to have traffic captured by Mongoscope."@
}

pub fn connection_string_report(proxy_port: u16, upstream_uri: &str) -> (r: String)
    ensures
        r@ == connection_string_text(proxy_port, upstream_uri@),
{
    proxy_address_text(proxy_port).concat("\n\nUse this instead of ").concat(upstream_uri).concat(
        " to have traffic captured by Mongoscope.",
    )
}

/// The answer of `clear_requests` for one connection, or for all `n`.
pub open spec fn cleared_text(connection_id: Option<u64>, n: nat) -> Seq<char> {
    match connection_id {
        Some(id) => "Cleared requests for connection "@ + decimal(id as nat) + "."@,
        None => "Cleared requests for all "@ + decimal(n) + " connection(s)."@,
    }
}

pub fn cleared_report(connection_id: Option<u64>, n: usize) -> (r: String)
    ensures
        r@ == cleared_text(connection_id, n as nat),
{
    match connection_id {
        Some(id) => concat("Cleared requests for connection ", decimal_string(id).as_str()).concat(
            ".",
        ),
        None => concat("Cleared requests for all ", decimal_string(n as u64).as_str()).concat(
            " connection(s).",
        ),
    }
}

/// The answer of `clear_requests` for an unknown connection.
pub open spec fn nothing_to_clear_text(id: u64) -> Seq<char> {
    "No connection with ID "@ + decimal(id as nat) + "."@
}

pub fn nothing_to_clear_report(id: u64) -> (r: String)
    ensures
        r@ == nothing_to_clear_text(id),
{
    concat("No connection with ID ", decimal_string(id).as_str()).concat(".")
}

} // verus!
