//! The feed filter: a small text language (`db:shop coll:orders slow`),
//! its parser and printer, the kind chips, and the state behind the
//! filter bar.

use vstd::prelude::*;
use crate::model::{op_is_delete, op_is_write, Op, Plan, QueryEntry};
use crate::text::{
    chars_of, contains, contains_seq, is_prefix, is_ws, join_sp, join_space, lemma_join_nested,
    lemma_tokens_are_words, lemma_tokens_join, lower, no_ws, push_char, same_chars, split_tokens,
    starts_with, string_of, strs, to_lower, tokens,
};

verus! {

/// Which operations the kind chips let through.
#[derive(Debug, Clone, Copy, PartialEq, Eq, Hash, Structural)]
pub enum KindFilter {
    All,
    Find,
    Aggregate,
    Write,
    Count,
    Unknown,
}

/// Whether kind `k` lets operation `op` through.
pub open spec fn kind_accepts(k: KindFilter, op: Op) -> bool {
    match k {
        KindFilter::All => true,
        KindFilter::Find => op is Find || op is FindOne,
        KindFilter::Aggregate => op is Aggregate,
        KindFilter::Write => op_is_write(op) || op_is_delete(op),
        KindFilter::Count => op is CountDocuments,
        KindFilter::Unknown => op is Unknown,
    }
}

impl KindFilter {
    pub fn label(self) -> (r: &'static str)
        ensures
            r@ == match self {
                KindFilter::All => "All"@,
                KindFilter::Find => "Find"@,
                KindFilter::Aggregate => "Agg"@,
                KindFilter::Write => "Write"@,
                KindFilter::Count => "Count"@,
                KindFilter::Unknown => "Unknown"@,
            },
    {
        match self {
            KindFilter::All => "All",
            KindFilter::Find => "Find",
            KindFilter::Aggregate => "Agg",
            KindFilter::Write => "Write",
            KindFilter::Count => "Count",
            KindFilter::Unknown => "Unknown",
        }
    }

    /// Every kind, in chip order.
    pub fn all() -> (r: &'static [KindFilter])
        ensures
            r@ == seq![
                KindFilter::All,
                KindFilter::Find,
                KindFilter::Aggregate,
                KindFilter::Write,
                KindFilter::Count,
                KindFilter::Unknown,
            ],
    {
        &[
            KindFilter::All,
            KindFilter::Find,
            KindFilter::Aggregate,
            KindFilter::Write,
            KindFilter::Count,
            KindFilter::Unknown,
        ]
    }

    /// Whether this kind lets `op` through.
    pub fn matches(self, op: &Op) -> (r: bool)
        ensures
            r == kind_accepts(self, *op),
    {
        match self {
            KindFilter::All => true,
            KindFilter::Find => matches!(op, Op::Find | Op::FindOne),
            KindFilter::Aggregate => matches!(op, Op::Aggregate),
            KindFilter::Write => matches!(
                op,
                Op::InsertOne | Op::UpdateOne | Op::UpdateMany | Op::DeleteOne | Op::DeleteMany
            ),
            KindFilter::Count => matches!(op, Op::CountDocuments),
            KindFilter::Unknown => matches!(op, Op::Unknown(_)),
        }
    }
}

/// The two canned filters.
#[derive(Debug, Clone, Copy, PartialEq, Eq, Structural)]
pub enum Preset {
    SlowQueries,
    CollScanOnly,
}

/// The word that selects a preset in filter text.
pub open spec fn preset_token(p: Preset) -> Seq<char> {
    match p {
        Preset::SlowQueries => "slow"@,
        Preset::CollScanOnly => "collscan"@,
    }
}

impl Preset {
    pub fn label(self) -> (r: &'static str)
        ensures
            r@ == match self {
                Preset::SlowQueries => "slow queries"@,
                Preset::CollScanOnly => "COLLSCANs only"@,
            },
    {
        match self {
            Preset::SlowQueries => "slow queries",
            Preset::CollScanOnly => "COLLSCANs only",
        }
    }

    /// The word that selects this preset in filter text.
    pub fn token(self) -> (r: &'static str)
        ensures
            r@ == preset_token(self),
    {
        match self {
            Preset::SlowQueries => "slow",
            Preset::CollScanOnly => "collscan",
        }
    }

    /// Every preset.
    pub fn all() -> (r: &'static [Preset])
        ensures
            r@ == seq![Preset::SlowQueries, Preset::CollScanOnly],
    {
        &[Preset::SlowQueries, Preset::CollScanOnly]
    }
}

/// Typed filter: every part of the filter as its own field.
#[derive(Debug, Clone)]
pub struct Filter {
    pub db: Option<String>,
    pub coll: Option<String>,
    pub app: Option<String>,
    pub kind: KindFilter,
    pub preset: Option<Preset>,
    pub text: Option<String>,
}

/// The characters of an optional string.
pub open spec fn opt_chars(o: Option<String>) -> Option<Seq<char>> {
    match o {
        Some(s) => Some(s@),
        None => None,
    }
}

/// What the filter text sets: database, collection and application
/// fragments, preset and free text, in that order.
pub type FilterModel = (
    Option<Seq<char>>,
    Option<Seq<char>>,
    Option<Seq<char>>,
    Option<Preset>,
    Option<Seq<char>>,
);

/// The text-settable part of `f`.
pub open spec fn filter_model(f: Filter) -> FilterModel {
    (opt_chars(f.db), opt_chars(f.coll), opt_chars(f.app), f.preset, opt_chars(f.text))
}

/// Nothing set.
pub open spec fn empty_model() -> FilterModel {
    (None, None, None, None, None)
}

/// Whether the token sets one of the presets.
pub open spec fn is_slow_token(t: Seq<char>) -> bool {
    t == "slow"@ || t == "slow:true"@
}

/// Whether the token sets the collection-scan preset.
pub open spec fn is_collscan_token(t: Seq<char>) -> bool {
    t == "collscan"@ || t == "collscan:true"@
}

/// Tokens that the filter bar shows as chips.
pub open spec fn is_chip(t: Seq<char>) -> bool {
    is_prefix("db:"@, t) || is_prefix("coll:"@, t) || is_prefix("app:"@, t) || is_slow_token(t)
        || is_collscan_token(t)
}

/// Whether a token is free text, not a chip.
pub open spec fn not_chip() -> spec_fn(Seq<char>) -> bool {
    |t: Seq<char>| !is_chip(t)
}

/// The free-text words of filter text `s`, in order.
pub open spec fn free_words(s: Seq<char>) -> Seq<Seq<char>> {
    tokens(s).filter(not_chip())
}

/// The effect of one token of filter text on the chip fields; free text
/// is read as a whole (`parse_model`).
pub open spec fn apply_token(m: FilterModel, t: Seq<char>) -> FilterModel {
    if is_prefix("db:"@, t) {
        (Some(lower(t.skip("db:"@.len() as int))), m.1, m.2, m.3, m.4)
    } else if is_prefix("coll:"@, t) {
        (m.0, Some(lower(t.skip("coll:"@.len() as int))), m.2, m.3, m.4)
    } else if is_prefix("app:"@, t) {
        (m.0, m.1, Some(lower(t.skip("app:"@.len() as int))), m.3, m.4)
    } else if is_slow_token(t) {
        if m.3 is None {
            (m.0, m.1, m.2, Some(Preset::SlowQueries), m.4)
        } else {
            m
        }
    } else if is_collscan_token(t) {
        if m.3 is None {
            (m.0, m.1, m.2, Some(Preset::CollScanOnly), m.4)
        } else {
            m
        }
    } else {
        m
    }
}

/// The effect of a sequence of tokens, read left to right.
pub open spec fn parse_tokens(ts: Seq<Seq<char>>) -> FilterModel
    decreases ts.len(),
{
    if ts.len() == 0 {
        empty_model()
    } else {
        apply_token(parse_tokens(ts.drop_last()), ts.last())
    }
}

/// What filter text `s` sets: the chips read left to right, and as free
/// text the words that are not chips, joined by single spaces and
/// lower-cased (none when there are none).
pub open spec fn parse_model(s: Seq<char>) -> FilterModel {
    let m = parse_tokens(tokens(s));
    let r = join_sp(free_words(s));
    (m.0, m.1, m.2, m.3, if r.len() == 0 {
        None
    } else {
        Some(lower(r))
    })
}

/// One printed part per optional value.
pub open spec fn opt_part(prefix: Seq<char>, o: Option<Seq<char>>) -> Seq<Seq<char>> {
    match o {
        Some(v) => seq![prefix + v],
        None => Seq::empty(),
    }
}

/// The printed parts of a filter, in order.
pub open spec fn model_parts(m: FilterModel) -> Seq<Seq<char>> {
    opt_part("db:"@, m.0) + opt_part("coll:"@, m.1) + opt_part("app:"@, m.2) + match m.3 {
        Some(p) => seq![preset_token(p)],
        None => Seq::<Seq<char>>::empty(),
    } + opt_part(Seq::empty(), m.4)
}

/// A filter as text.
pub open spec fn model_text(m: FilterModel) -> Seq<char> {
    join_sp(model_parts(m))
}

impl Default for Filter {
    fn default() -> (r: Filter)
        ensures
            filter_model(r) == empty_model(),
            r.kind == KindFilter::All,
    {
        Filter {
            db: None,
            coll: None,
            app: None,
            kind: KindFilter::All,
            preset: None,
            text: None,
        }
    }
}

/// Whether `t` is shown as a chip in the filter bar.
fn is_chip_token(t: &str) -> (r: bool)
    ensures
        r == is_chip(t@),
{
    let v = chars_of(t);
    starts_with(&v, "db:") || starts_with(&v, "coll:") || starts_with(&v, "app:") || same_chars(
        &v,
        "slow",
    ) || same_chars(&v, "slow:true") || same_chars(&v, "collscan") || same_chars(
        &v,
        "collscan:true",
    )
}

/// The lower-cased rest of `v` after its first `n` characters.
fn lower_rest(v: &Vec<char>, n: usize) -> (r: String)
    requires
        n <= v@.len(),
    ensures
        r@ == lower(v@.skip(n as int)),
{
    let rest = string_of(v, n, v.len());
    assert(v@.subrange(n as int, v@.len() as int) =~= v@.skip(n as int));
    to_lower(rest.as_str())
}

impl Filter {
    /// Reads filter text: `db:`, `coll:` and `app:` tokens set those
    /// fragments (lower-cased, the last one wins), `slow` and `collscan`
    /// (or `...:true`) set a preset if none is set yet, and the other
    /// tokens, joined by single spaces and lower-cased, are the free text.
    pub fn parse(input: &str) -> (r: Filter)
        ensures
            filter_model(r) == parse_model(input@),
            r.kind == KindFilter::All,
    {
        let mut f = Filter::default();
        let ts = split_tokens(input);
        let mut i: usize = 0;
        while i < ts.len()
            invariant
                0 <= i <= ts@.len(),
                strs(ts@) == tokens(input@),
                f.kind == KindFilter::All,
                f.text is None,
                filter_model(f) == parse_tokens(strs(ts@).take(i as int)),
            decreases ts.len() - i,
        {
            let ghost m = filter_model(f);
            let ghost t = ts@[i as int]@;
            assert(strs(ts@).take(i + 1).drop_last() =~= strs(ts@).take(i as int));
            assert(strs(ts@).take(i + 1).last() == t);
            let v = chars_of(ts[i].as_str());
            if starts_with(&v, "db:") {
                f.db = Some(lower_rest(&v, "db:".unicode_len()));
            } else if starts_with(&v, "coll:") {
                f.coll = Some(lower_rest(&v, "coll:".unicode_len()));
            } else if starts_with(&v, "app:") {
                f.app = Some(lower_rest(&v, "app:".unicode_len()));
            } else if same_chars(&v, "slow") || same_chars(&v, "slow:true") {
                if f.preset.is_none() {
                    f.preset = Some(Preset::SlowQueries);
                }
            } else if same_chars(&v, "collscan") || same_chars(&v, "collscan:true") {
                if f.preset.is_none() {
                    f.preset = Some(Preset::CollScanOnly);
                }
            }
            assert(filter_model(f) == apply_token(m, t));
            i += 1;
        }
        assert(strs(ts@).take(ts@.len() as int) =~= strs(ts@));
        let free = Filter::non_chip_text(input);
        if free.as_str().unicode_len() > 0 {
            f.text = Some(to_lower(free.as_str()));
        }
        f
    }

    /// The filter as text: `db:`, `coll:` and `app:` parts, the preset
    /// word and the free text, separated by single spaces.
    pub fn to_string(&self) -> (r: String)
        ensures
            r@ == model_text(filter_model(*self)),
    {
        let mut parts: Vec<String> = Vec::new();
        if let Some(db) = &self.db {
            let mut p = "db:".to_string();
            p.append(db.as_str());
            parts.push(p);
        }
        if let Some(coll) = &self.coll {
            let mut p = "coll:".to_string();
            p.append(coll.as_str());
            parts.push(p);
        }
        if let Some(app) = &self.app {
            let mut p = "app:".to_string();
            p.append(app.as_str());
            parts.push(p);
        }
        if let Some(preset) = self.preset {
            parts.push(preset.token().to_string());
        }
        if let Some(text) = &self.text {
            parts.push(text.clone());
        }
        let ghost m = filter_model(*self);
        assert(strs(parts@) =~= model_parts(m));
        join_space(&parts)
    }
}

/// Whether filter `f` lets captured request `e` through: its kind admits
/// the operation, each of the database, collection and application
/// fragments occurs in the lower-cased name, the preset holds, and the
/// free text occurs in the lower-cased "db coll app" line.
pub open spec fn filter_accepts(f: Filter, e: QueryEntry) -> bool {
    &&& kind_accepts(f.kind, e.op)
    &&& (f.db matches Some(d) ==> contains_seq(lower(e.db@), d@))
    &&& (f.coll matches Some(c) ==> contains_seq(lower(e.coll@), c@))
    &&& (f.app matches Some(a) ==> contains_seq(lower(e.app@), a@))
    &&& (f.preset == Some(Preset::SlowQueries) ==> e.slow)
    &&& (f.preset == Some(Preset::CollScanOnly) ==> e.plan == Some(Plan::CollScan))
    &&& (f.text matches Some(t) ==> contains_seq(
        lower(e.db@ + seq![' '] + e.coll@ + seq![' '] + e.app@),
        t@,
    ))
}

/// Whether `needle` occurs in the lower-cased `name`.
fn lower_contains(name: &str, needle: &String) -> (r: bool)
    ensures
        r == contains_seq(lower(name@), needle@),
{
    let low = to_lower(name);
    contains(&chars_of(low.as_str()), &chars_of(needle.as_str()))
}

/// The first occurrence of `t` in `ts` removed, if there is one.
pub open spec fn remove_first(ts: Seq<Seq<char>>, t: Seq<char>) -> Seq<Seq<char>>
    decreases ts.len(),
{
    if ts.len() == 0 {
        ts
    } else if ts[0] == t {
        ts.drop_first()
    } else {
        seq![ts[0]] + remove_first(ts.drop_first(), t)
    }
}

impl Filter {
    /// Whether this filter lets `entry` through.
    pub fn matches(&self, entry: &QueryEntry) -> (r: bool)
        ensures
            r == filter_accepts(*self, *entry),
    {
        if !self.kind.matches(&entry.op) {
            return false;
        }
        if let Some(db) = &self.db {
            if !lower_contains(entry.db.as_str(), db) {
                return false;
            }
        }
        if let Some(coll) = &self.coll {
            if !lower_contains(entry.coll.as_str(), coll) {
                return false;
            }
        }
        if let Some(app) = &self.app {
            if !lower_contains(entry.app.as_str(), app) {
                return false;
            }
        }
        match self.preset {
            Some(Preset::SlowQueries) => {
                if !entry.slow {
                    return false;
                }
            },
            Some(Preset::CollScanOnly) => {
                if !matches!(entry.plan, Some(Plan::CollScan)) {
                    return false;
                }
            },
            None => {},
        }
        if let Some(text) = &self.text {
            let mut line = entry.db.as_str().to_string();
            push_char(&mut line, ' ');
            line.append(entry.coll.as_str());
            push_char(&mut line, ' ');
            line.append(entry.app.as_str());
            assert(line@ =~= entry.db@ + seq![' '] + entry.coll@ + seq![' '] + entry.app@);
            if !lower_contains(line.as_str(), text) {
                return false;
            }
        }
        true
    }

    /// The tokens of `text` shown as chips, in order.
    pub fn chip_tokens(text: &str) -> (r: Vec<String>)
        ensures
            strs(r@) == tokens(text@).filter(|t: Seq<char>| is_chip(t)),
    {
        let ts = split_tokens(text);
        let ghost all = strs(ts@);
        let mut out: Vec<String> = Vec::new();
        let mut i: usize = 0;
        while i < ts.len()
            invariant
                0 <= i <= ts@.len(),
                all == strs(ts@),
                all == tokens(text@),
                strs(out@) == all.take(i as int).filter(|t: Seq<char>| is_chip(t)),
            decreases ts.len() - i,
        {
            proof {
                reveal_with_fuel(Seq::filter, 1);
            }
            assert(all.take(i + 1).drop_last() =~= all.take(i as int));
            if is_chip_token(ts[i].as_str()) {
                let ghost before = strs(out@);
                out.push(ts[i].clone());
                assert(strs(out@) =~= before.push(all[i as int]));
            }
            i += 1;
        }
        assert(all.take(ts@.len() as int) =~= all);
        out
    }

    /// The tokens of `text` not shown as chips, joined by single spaces.
    pub fn non_chip_text(text: &str) -> (r: String)
        ensures
            r@ == join_sp(free_words(text@)),
    {
        let ts = split_tokens(text);
        let ghost all = strs(ts@);
        let mut out: Vec<String> = Vec::new();
        let mut i: usize = 0;
        while i < ts.len()
            invariant
                0 <= i <= ts@.len(),
                all == strs(ts@),
                all == tokens(text@),
                strs(out@) == all.take(i as int).filter(not_chip()),
            decreases ts.len() - i,
        {
            proof {
                reveal_with_fuel(Seq::filter, 1);
            }
            assert(all.take(i + 1).drop_last() =~= all.take(i as int));
            if !is_chip_token(ts[i].as_str()) {
                let ghost before = strs(out@);
                out.push(ts[i].clone());
                assert(strs(out@) =~= before.push(all[i as int]));
            }
            i += 1;
        }
        assert(all.take(ts@.len() as int) =~= all);
        join_space(&out)
    }

    /// `text` with the first token equal to `token` left out, its tokens
    /// joined by single spaces.
    pub fn remove_token(text: &str, token: &str) -> (r: String)
        ensures
            r@ == join_sp(remove_first(tokens(text@), token@)),
    {
        let ts = split_tokens(text);
        let ghost all = strs(ts@);
        let mut out: Vec<String> = Vec::new();
        let mut removed = false;
        let mut i: usize = 0;
        assert(all.skip(0) =~= all);
        while i < ts.len()
            invariant
                0 <= i <= ts@.len(),
                all == strs(ts@),
                all == tokens(text@),
                strs(out@) + (if removed {
                    all.skip(i as int)
                } else {
                    remove_first(all.skip(i as int), token@)
                }) == remove_first(all, token@),
            decreases ts.len() - i,
        {
            let ghost before = strs(out@);
            let ghost rest = all.skip(i as int);
            assert(rest.drop_first() =~= all.skip(i + 1));
            assert(rest[0] == all[i as int]);
            let same = same_chars(&chars_of(ts[i].as_str()), token);
            if !removed && same {
                removed = true;
            } else {
                out.push(ts[i].clone());
                assert(strs(out@) =~= before + seq![all[i as int]]);
                assert(rest =~= seq![all[i as int]] + all.skip(i + 1));
            }
            i += 1;
        }
        assert(all.skip(ts@.len() as int) =~= Seq::<Seq<char>>::empty());
        assert(strs(out@) =~= remove_first(all, token@));
        join_space(&out)
    }
}

/// What the filter bar asks of its state.
#[derive(Debug, Clone)]
pub enum FilterMsg {
    TextChanged(String),
    TextSubmit,
    KindSelected(KindFilter),
    ClearFilter,
}

/// The filter bar: the text in the input and the filter it stands for.
pub struct FilterState {
    pub input: String,
    pub filter: Filter,
}

/// The filter bar `n` is `o` after the message `m`.
pub open spec fn filter_updated(o: FilterState, n: FilterState, m: FilterMsg) -> bool {
    match m {
        FilterMsg::TextChanged(t) => {
            &&& n.input == t
            &&& filter_model(n.filter) == parse_model(t@)
            &&& n.filter.kind == o.filter.kind
        },
        FilterMsg::TextSubmit => {
            &&& n.input == o.input
            &&& filter_model(n.filter) == parse_model(o.input@)
            &&& n.filter.kind == o.filter.kind
        },
        FilterMsg::KindSelected(k) => {
            &&& n.input == o.input
            &&& n.filter == (Filter { kind: k, ..o.filter })
        },
        FilterMsg::ClearFilter => {
            &&& n.input@ == Seq::<char>::empty()
            &&& filter_model(n.filter) == empty_model()
            &&& n.filter.kind == KindFilter::All
        },
    }
}

impl FilterState {
    pub fn new() -> (r: FilterState)
        ensures
            r.input@ == Seq::<char>::empty(),
            filter_model(r.filter) == empty_model(),
            r.filter.kind == KindFilter::All,
    {
        FilterState { input: String::new(), filter: Filter::default() }
    }

    /// Rewrites the input from the filter.
    fn sync_input(&mut self)
        ensures
            final(self).filter == old(self).filter,
            final(self).input@ == model_text(filter_model(final(self).filter)),
    {
        self.input = self.filter.to_string();
    }

    /// Scopes the filter to a database and a collection (or to neither).
    pub fn set_scope(&mut self, db: Option<String>, coll: Option<String>)
        ensures
            final(self).filter == (Filter { db: db, coll: coll, ..old(self).filter }),
            final(self).input@ == model_text(filter_model(final(self).filter)),
    {
        self.filter.db = db;
        self.filter.coll = coll;
        self.sync_input();
    }

    /// Scopes the filter to a client application (or to none).
    pub fn set_app(&mut self, app: Option<String>)
        ensures
            final(self).filter == (Filter { app: app, ..old(self).filter }),
            final(self).input@ == model_text(filter_model(final(self).filter)),
    {
        self.filter.app = app;
        self.sync_input();
    }

    /// Selects a preset (or none).
    pub fn set_preset(&mut self, preset: Option<Preset>)
        ensures
            final(self).filter == (Filter { preset: preset, ..old(self).filter }),
            final(self).input@ == model_text(filter_model(final(self).filter)),
    {
        self.filter.preset = preset;
        self.sync_input();
    }

    pub fn active_preset(&self) -> (r: Option<Preset>)
        ensures
            r == self.filter.preset,
    {
        self.filter.preset
    }

    /// Whether the filter lets `entry` through.
    pub fn matches(&self, entry: &QueryEntry) -> (r: bool)
        ensures
            r == filter_accepts(self.filter, *entry),
    {
        self.filter.matches(entry)
    }

    /// Applies a message from the filter bar.  Typed or submitted text
    /// replaces the filter with the parsed text but keeps the selected
    /// kind; a kind selection changes the kind alone; clearing empties both.
    pub fn update(&mut self, msg: FilterMsg)
        ensures
            filter_updated(*old(self), *final(self), msg),
    {
        match msg {
            FilterMsg::TextChanged(t) => {
                let kind = self.filter.kind;
                self.filter = Filter::parse(t.as_str());
                self.filter.kind = kind;
                self.input = t;
            },
            FilterMsg::TextSubmit => {
                let kind = self.filter.kind;
                self.filter = Filter::parse(self.input.as_str());
                self.filter.kind = kind;
            },
            FilterMsg::KindSelected(k) => {
                self.filter.kind = k;
            },
            FilterMsg::ClearFilter => {
                self.input = String::new();
                self.filter = Filter::default();
            },
        }
    }
}

/// A run occurs in itself.
proof fn lemma_contains_self(s: Seq<char>)
    ensures
        contains_seq(s, s),
{
    assert(s.subrange(0, 0 + s.len() as int) =~= s);
}

/// A filter set to a collection fragment alone lets a request through
/// exactly when the fragment occurs in the lower-cased collection name:
/// the database and application names, the operation, the plan and the
/// latency of the request play no part.
pub proof fn lemma_coll_fragment_alone(f: Filter, e1: QueryEntry, e2: QueryEntry)
    requires
        f.kind == KindFilter::All,
        f.db is None,
        f.coll is Some,
        f.app is None,
        f.preset is None,
        f.text is None,
    ensures
        filter_accepts(f, e1) <==> contains_seq(lower(e1.coll@), f.coll.unwrap()@),
        e1.coll@ == e2.coll@ ==> (filter_accepts(f, e1) <==> filter_accepts(f, e2)),
{
}

/// Reading `coll:` followed by a name gives a filter that lets through
/// every request on a collection of that name, whatever its database,
/// application, operation or latency.
pub proof fn lemma_parse_coll_matches(name: Seq<char>, f: Filter, e: QueryEntry)
    requires
        no_ws(name),
        filter_model(f) == parse_model("coll:"@ + name),
        f.kind == KindFilter::All,
        e.coll@ == name,
    ensures
        filter_accepts(f, e),
{
    reveal_strlit("coll:");
    reveal_strlit("db:");
    assert(no_ws("coll:"@));
    let w = "coll:"@ + name;
    lemma_part_word("coll:"@, name);
    lemma_tokens_join(seq![w]);
    assert(join_sp(seq![w]) == w);
    assert(tokens(w) == seq![w]);
    assert(w.subrange(0, 3)[0] != "db:"@[0]);
    assert(!is_prefix("db:"@, w));
    assert(is_chip(w));
    assert(seq![w].drop_last() =~= Seq::<Seq<char>>::empty());
    assert(seq![w].last() == w);
    assert(parse_tokens(Seq::<Seq<char>>::empty()) == empty_model());
    assert(parse_tokens(seq![w]) == apply_token(empty_model(), w));
    lemma_filter_all_chips(seq![w]);
    assert(free_words(w) == Seq::<Seq<char>>::empty());
    assert(parse_model(w).1 == Some(lower(name)));
    lemma_contains_self(lower(name));
}

/// A `db:`, `coll:` or `app:` value that prints and reads back as itself.
pub open spec fn clean_value(v: Seq<char>) -> bool {
    no_ws(v) && lower(v) == v
}

/// Free text that prints and reads back as itself: words that are not
/// chips, separated by single spaces, the whole unchanged by lower-casing.
pub open spec fn clean_text(t: Seq<char>) -> bool {
    &&& tokens(t).len() > 0
    &&& join_sp(tokens(t)) == t
    &&& forall|i: int| 0 <= i < tokens(t).len() ==> !is_chip(#[trigger] tokens(t)[i])
    &&& lower(t) == t
}

/// A filter whose text reads back as the same filter.
pub open spec fn canonical(m: FilterModel) -> bool {
    &&& (m.0 matches Some(v) ==> clean_value(v))
    &&& (m.1 matches Some(v) ==> clean_value(v))
    &&& (m.2 matches Some(v) ==> clean_value(v))
    &&& (m.4 matches Some(t) ==> clean_text(t))
}

/// The effect of tokens `ys` on a filter already set to `m`.
pub open spec fn apply_all(m: FilterModel, ys: Seq<Seq<char>>) -> FilterModel
    decreases ys.len(),
{
    if ys.len() == 0 {
        m
    } else {
        apply_token(apply_all(m, ys.drop_last()), ys.last())
    }
}

proof fn lemma_parse_append(xs: Seq<Seq<char>>, ys: Seq<Seq<char>>)
    ensures
        parse_tokens(xs + ys) == apply_all(parse_tokens(xs), ys),
    decreases ys.len(),
{
    if ys.len() == 0 {
        assert(xs + ys =~= xs);
    } else {
        lemma_parse_append(xs, ys.drop_last());
        assert((xs + ys).drop_last() =~= xs + ys.drop_last());
        assert((xs + ys).last() == ys.last());
    }
}

proof fn lemma_apply_words(m: FilterModel, ws: Seq<Seq<char>>)
    requires
        forall|i: int| 0 <= i < ws.len() ==> !is_chip(#[trigger] ws[i]),
    ensures
        apply_all(m, ws) == m,
    decreases ws.len(),
{
    if ws.len() > 0 {
        let init = ws.drop_last();
        assert forall|i: int| 0 <= i < init.len() implies !is_chip(#[trigger] init[i]) by {
            assert(init[i] == ws[i]);
        }
        lemma_apply_words(m, init);
        assert(!is_chip(ws[ws.len() - 1]));
    }
}

proof fn lemma_filter_all_free(ws: Seq<Seq<char>>)
    requires
        forall|i: int| 0 <= i < ws.len() ==> !is_chip(#[trigger] ws[i]),
    ensures
        ws.filter(not_chip()) == ws,
    decreases ws.len(),
{
    if ws.len() > 0 {
        let init = ws.drop_last();
        assert forall|i: int| 0 <= i < init.len() implies !is_chip(#[trigger] init[i]) by {
            assert(init[i] == ws[i]);
        }
        lemma_filter_all_free(init);
        init.lemma_filter_push(ws.last(), not_chip());
        assert(!is_chip(ws[ws.len() - 1]));
        assert(init.push(ws.last()) =~= ws);
    }
}

proof fn lemma_filter_all_chips(ws: Seq<Seq<char>>)
    requires
        forall|i: int| 0 <= i < ws.len() ==> is_chip(#[trigger] ws[i]),
    ensures
        ws.filter(not_chip()) == Seq::<Seq<char>>::empty(),
    decreases ws.len(),
{
    if ws.len() > 0 {
        let init = ws.drop_last();
        assert forall|i: int| 0 <= i < init.len() implies is_chip(#[trigger] init[i]) by {
            assert(init[i] == ws[i]);
        }
        lemma_filter_all_chips(init);
        init.lemma_filter_push(ws.last(), not_chip());
        assert(is_chip(ws[ws.len() - 1]));
        assert(init.push(ws.last()) =~= ws);
    }
}

proof fn lemma_part_word(prefix: Seq<char>, v: Seq<char>)
    requires
        prefix.len() > 0,
        no_ws(prefix),
        no_ws(v),
    ensures
        (prefix + v).len() > 0,
        no_ws(prefix + v),
        is_prefix(prefix, prefix + v),
        (prefix + v).skip(prefix.len() as int) == v,
{
    assert forall|i: int| 0 <= i < (prefix + v).len() implies !is_ws(#[trigger] (prefix + v)[i]) by {
        if i < prefix.len() {
            assert((prefix + v)[i] == prefix[i]);
        } else {
            assert((prefix + v)[i] == v[i - prefix.len()]);
        }
    }
    assert((prefix + v).subrange(0, prefix.len() as int) =~= prefix);
    assert((prefix + v).skip(prefix.len() as int) =~= v);
}

proof fn lemma_free_words_after_chips(head: Seq<Seq<char>>, w: Seq<Seq<char>>)
    requires
        forall|i: int| 0 <= i < head.len() ==> is_chip(#[trigger] head[i]),
        forall|i: int| 0 <= i < w.len() ==> !is_chip(#[trigger] w[i]),
    ensures
        (head + w).filter(not_chip()) == w,
{
    lemma_filter_all_chips(head);
    lemma_filter_all_free(w);
    Seq::filter_distributes_over_add(head, w, not_chip());
    assert(Seq::<Seq<char>>::empty() + w =~= w);
}

/// Printing a filter whose values are clean and reading the text back
/// gives the same database, collection and application fragments, preset
/// and free text.
#[verifier::spinoff_prover]
#[verifier::rlimit(40)]
pub proof fn lemma_print_parse_roundtrip(f: Filter)
    requires
        canonical(filter_model(f)),
    ensures
        parse_model(model_text(filter_model(f))) == filter_model(f),
{
    let m = filter_model(f);
    reveal_strlit("db:");
    reveal_strlit("coll:");
    reveal_strlit("app:");
    reveal_strlit("slow");
    reveal_strlit("slow:true");
    reveal_strlit("collscan");
    reveal_strlit("collscan:true");
    assert(no_ws("db:"@));
    assert(no_ws("coll:"@));
    assert(no_ws("app:"@));
    assert(no_ws("slow"@));
    assert(no_ws("collscan"@));
    let a = opt_part("db:"@, m.0);
    let b = opt_part("coll:"@, m.1);
    let c = opt_part("app:"@, m.2);
    let d = match m.3 {
        Some(p) => seq![preset_token(p)],
        None => Seq::<Seq<char>>::empty(),
    };
    let w = match m.4 {
        Some(t) => tokens(t),
        None => Seq::<Seq<char>>::empty(),
    };
    let head = a + b + c + d;
    let parts = head + w;
    // The text is the head parts and the words, joined.
    if let Some(t) = m.4 {
        assert(opt_part(Seq::empty(), m.4) =~= seq![join_sp(tokens(t))]);
        assert(model_parts(m) =~= head + seq![join_sp(w)]);
        lemma_join_nested(head, w);
        lemma_tokens_are_words(t, Seq::empty());
    } else {
        assert(model_parts(m) =~= parts);
    }
    // Each part is a single word, so the text splits back into the parts.
    if let Some(v) = m.0 {
        lemma_part_word("db:"@, v);
    }
    if let Some(v) = m.1 {
        lemma_part_word("coll:"@, v);
    }
    if let Some(v) = m.2 {
        lemma_part_word("app:"@, v);
    }
    assert forall|i: int| 0 <= i < parts.len() implies (#[trigger] parts[i]).len() > 0 && no_ws(
        parts[i],
    ) by {
        if i < a.len() {
            assert(parts[i] == a[i]);
        } else if i < a.len() + b.len() {
            assert(parts[i] == b[i - a.len()]);
        } else if i < a.len() + b.len() + c.len() {
            assert(parts[i] == c[i - a.len() - b.len()]);
        } else if i < head.len() {
            assert(parts[i] == d[i - a.len() - b.len() - c.len()]);
        } else {
            assert(parts[i] == w[i - head.len()]);
        }
    }
    lemma_tokens_join(parts);
    // Reading the parts back, one group at a time.
    let m1 = parse_tokens(a);
    assert(m1 == (m.0, None::<Seq<char>>, None::<Seq<char>>, None::<Preset>, None::<Seq<char>>))
        by {
        if let Some(v) = m.0 {
            assert(a.drop_last() =~= Seq::<Seq<char>>::empty());
            assert(parse_tokens(a.drop_last()) == empty_model());
            assert(a.last() == "db:"@ + v);
            assert(clean_value(v));
            assert(apply_token(empty_model(), "db:"@ + v) == (Some(v), None::<Seq<char>>, None::<Seq<char>>, None::<Preset>, None::<Seq<char>>));
        }
    }
    lemma_parse_append(a, b);
    let m2 = parse_tokens(a + b);
    assert(m2 == (m.0, m.1, None::<Seq<char>>, None::<Preset>, None::<Seq<char>>)) by {
        if let Some(v) = m.1 {
            assert(b.drop_last() =~= Seq::<Seq<char>>::empty());
            assert(apply_all(m1, b.drop_last()) == m1);
            assert(b.last() == "coll:"@ + v);
            assert(clean_value(v));
            assert(("coll:"@ + v).subrange(0, 3)[0] != "db:"@[0]);
            assert(!is_prefix("db:"@, "coll:"@ + v));
        }
    }
    lemma_parse_append(a + b, c);
    let m3 = parse_tokens(a + b + c);
    assert(m3 == (m.0, m.1, m.2, None::<Preset>, None::<Seq<char>>)) by {
        if let Some(v) = m.2 {
            assert(c.drop_last() =~= Seq::<Seq<char>>::empty());
            assert(apply_all(m2, c.drop_last()) == m2);
            assert(c.last() == "app:"@ + v);
            assert(clean_value(v));
            assert(("app:"@ + v).subrange(0, 3)[0] != "db:"@[0]);
            if ("app:"@ + v).len() >= 5 {
                assert(("app:"@ + v).subrange(0, 5)[0] != "coll:"@[0]);
            }
            assert(!is_prefix("db:"@, "app:"@ + v));
            assert(!is_prefix("coll:"@, "app:"@ + v));
        }
    }
    lemma_parse_append(a + b + c, d);
    let m4 = parse_tokens(head);
    assert(m4 == (m.0, m.1, m.2, m.3, None::<Seq<char>>)) by {
        if let Some(p) = m.3 {
            assert(d.drop_last() =~= Seq::<Seq<char>>::empty());
            assert(apply_all(m3, d.drop_last()) == m3);
            assert(d.last() == preset_token(p));
            match p {
                Preset::SlowQueries => {
                    let t = "slow"@;
                    assert(t.subrange(0, 3)[0] != "db:"@[0]);
                    assert(t.subrange(0, 4)[0] != "app:"@[0]);
                    assert(!is_prefix("db:"@, t));
                    assert(!is_prefix("coll:"@, t));
                    assert(!is_prefix("app:"@, t));
                },
                Preset::CollScanOnly => {
                    let t = "collscan"@;
                    assert(t.subrange(0, 3)[0] != "db:"@[0]);
                    assert(t.subrange(0, 5)[4] != "coll:"@[4]);
                    assert(t.subrange(0, 4)[0] != "app:"@[0]);
                    assert(!is_prefix("db:"@, t));
                    assert(!is_prefix("coll:"@, t));
                    assert(!is_prefix("app:"@, t));
                    assert(t.len() != "slow"@.len());
                    assert(t.len() != "slow:true"@.len());
                    assert(!is_slow_token(t));
                },
            }
        }
    }
    lemma_parse_append(head, w);
    lemma_words_not_chips(m.4);
    lemma_apply_words(m4, w);
    lemma_head_chips(m);
    lemma_free_text_back(m.4, head, w);
}

/// The words of clean free text are not chips.
proof fn lemma_words_not_chips(o: Option<Seq<char>>)
    requires
        o matches Some(t) ==> clean_text(t),
    ensures
        forall|i: int|
            0 <= i < text_words(o).len() ==> !is_chip(#[trigger] text_words(o)[i]),
{
}

/// The words of optional free text.
pub open spec fn text_words(o: Option<Seq<char>>) -> Seq<Seq<char>> {
    match o {
        Some(t) => tokens(t),
        None => Seq::empty(),
    }
}

/// The printed parts before the free text.
pub open spec fn chip_parts(m: FilterModel) -> Seq<Seq<char>> {
    opt_part("db:"@, m.0) + opt_part("coll:"@, m.1) + opt_part("app:"@, m.2) + match m.3 {
        Some(p) => seq![preset_token(p)],
        None => Seq::<Seq<char>>::empty(),
    }
}

/// Every printed part before the free text is a chip.
proof fn lemma_head_chips(m: FilterModel)
    ensures
        forall|i: int| 0 <= i < chip_parts(m).len() ==> is_chip(#[trigger] chip_parts(m)[i]),
{
    reveal_strlit("db:");
    reveal_strlit("coll:");
    reveal_strlit("app:");
    reveal_strlit("slow");
    reveal_strlit("collscan");
    let a = opt_part("db:"@, m.0);
    let b = opt_part("coll:"@, m.1);
    let c = opt_part("app:"@, m.2);
    let d = match m.3 {
        Some(p) => seq![preset_token(p)],
        None => Seq::<Seq<char>>::empty(),
    };
    let head = chip_parts(m);
    assert(head =~= a + b + c + d);
    assert forall|i: int| 0 <= i < head.len() implies is_chip(#[trigger] head[i]) by {
        if i < a.len() {
            assert(head[i] == a[i]);
            if let Some(v) = m.0 {
                assert(("db:"@ + v).subrange(0, 3) =~= "db:"@);
            }
        } else if i < a.len() + b.len() {
            assert(head[i] == b[i - a.len()]);
            if let Some(v) = m.1 {
                assert(("coll:"@ + v).subrange(0, 5) =~= "coll:"@);
            }
        } else if i < a.len() + b.len() + c.len() {
            assert(head[i] == c[i - a.len() - b.len()]);
            if let Some(v) = m.2 {
                assert(("app:"@ + v).subrange(0, 4) =~= "app:"@);
            }
        } else {
            assert(head[i] == d[i - a.len() - b.len() - c.len()]);
            if let Some(p) = m.3 {
                match p {
                    Preset::SlowQueries => assert(is_slow_token(d[0])),
                    Preset::CollScanOnly => assert(is_collscan_token(d[0])),
                }
            }
        }
    }
}

/// Reading back the free text of printed chips followed by the words of
/// clean free text gives that free text.
proof fn lemma_free_text_back(o: Option<Seq<char>>, head: Seq<Seq<char>>, w: Seq<Seq<char>>)
    requires
        o matches Some(t) ==> clean_text(t),
        w == text_words(o),
        forall|i: int| 0 <= i < head.len() ==> is_chip(#[trigger] head[i]),
    ensures
        ({
            let r = join_sp((head + w).filter(not_chip()));
            (if r.len() == 0 {
                None
            } else {
                Some(lower(r))
            }) == o
        }),
{
    lemma_words_not_chips(o);
    lemma_free_words_after_chips(head, w);
    if let Some(t) = o {
        assert(join_sp(w) == t);
        assert(t.len() > 0) by {
            if t.len() == 0 {
                assert(tokens(t) =~= Seq::<Seq<char>>::empty());
            }
        }
    } else {
        assert(w =~= Seq::<Seq<char>>::empty());
    }
}

proof fn lemma_filter_keeps_words(ts: Seq<Seq<char>>, p: spec_fn(Seq<char>) -> bool)
    requires
        forall|i: int| 0 <= i < ts.len() ==> (#[trigger] ts[i]).len() > 0 && no_ws(ts[i]),
    ensures
        forall|i: int| 0 <= i < ts.filter(p).len() ==> (#[trigger] ts.filter(p)[i]).len() > 0 && no_ws(ts.filter(p)[i]),
{
    assert forall|i: int| 0 <= i < ts.filter(p).len() implies (#[trigger] ts.filter(p)[i]).len() > 0 && no_ws(ts.filter(p)[i]) by {
        ts.lemma_filter_contains_rev(p, ts.filter(p)[i]);
        ts.filter(p).lemma_contains_to_index(ts.filter(p)[i]);
    }
}

proof fn lemma_remove_first_keeps_words(ts: Seq<Seq<char>>, t: Seq<char>)
    requires
        forall|i: int| 0 <= i < ts.len() ==> (#[trigger] ts[i]).len() > 0 && no_ws(ts[i]),
    ensures
        forall|i: int| 0 <= i < remove_first(ts, t).len() ==> (#[trigger] remove_first(ts, t)[i]).len() > 0 && no_ws(remove_first(ts, t)[i]),
    decreases ts.len(),
{
    if ts.len() > 0 && ts[0] != t {
        lemma_remove_first_keeps_words(ts.drop_first(), t);
        let r = remove_first(ts, t);
        assert forall|i: int| 0 <= i < r.len() implies (#[trigger] r[i]).len() > 0 && no_ws(r[i]) by {
            if i > 0 {
                assert(r[i] == remove_first(ts.drop_first(), t)[i - 1]);
            }
        }
    } else if ts.len() > 0 {
        assert forall|i: int| 0 <= i < ts.drop_first().len() implies (#[trigger] ts.drop_first()[i]).len() > 0 && no_ws(ts.drop_first()[i]) by {
            assert(ts.drop_first()[i] == ts[i + 1]);
        }
    }
}

/// The text left once the chips are taken out reads back as exactly the
/// tokens that are not chips; the text left once a token is removed reads
/// back as the tokens without the first copy of it.
pub proof fn lemma_remainders_retokenize(text: Seq<char>, token: Seq<char>)
    ensures
        tokens(join_sp(tokens(text).filter(not_chip()))) == tokens(text).filter(not_chip()),
        tokens(join_sp(remove_first(tokens(text), token))) == remove_first(tokens(text), token),
{
    lemma_tokens_are_words(text, Seq::empty());
    lemma_filter_keeps_words(tokens(text), not_chip());
    lemma_tokens_join(tokens(text).filter(not_chip()));
    lemma_remove_first_keeps_words(tokens(text), token);
    lemma_tokens_join(remove_first(tokens(text), token));
}

} // verus!
