//! Validated scalar and name types carried by captured requests.

use vstd::prelude::*;
use crate::text::{trim_ws, trimmed};

verus! {

/// Why a value was refused by a validating constructor.
#[derive(Debug, Clone, Copy, PartialEq, Eq)]
pub enum ValidationError {
    /// The number must be greater than zero.
    GreaterViolated,
    /// The text must not be empty once trimmed.
    NotEmptyViolated,
}

/// Identifier of a captured request; never zero.
#[derive(Debug, Clone, Copy, PartialEq, Eq, PartialOrd, Ord, Hash)]
pub struct QueryId {
    value: u64,
}

impl View for QueryId {
    type V = u64;

    closed spec fn view(&self) -> u64 {
        self.value
    }
}

impl QueryId {
    #[verifier::type_invariant]
    spec fn positive(self) -> bool {
        self.value > 0
    }

    /// Accepts `value` when it is greater than zero.
    pub fn try_new(value: u64) -> (r: Result<QueryId, ValidationError>)
        ensures
            value > 0 <==> r is Ok,
            r matches Ok(id) ==> id@ == value,
            r matches Err(e) ==> e == ValidationError::GreaterViolated,
    {
        if value > 0 {
            Ok(QueryId { value })
        } else {
            Err(ValidationError::GreaterViolated)
        }
    }

    /// The number held.
    pub fn into_inner(self) -> (r: u64)
        ensures
            r == self@,
            r > 0,
    {
        proof {
            use_type_invariant(&self);
        }
        self.value
    }
    /// Whether `other` is the same identifier.
    pub fn same(&self, other: &QueryId) -> (r: bool)
        ensures
            r == (*self == *other),
    {
        self.value == other.value
    }
}

/// Server-side latency of a request, in milliseconds.
#[derive(Debug, Clone, Copy, PartialEq, Eq, PartialOrd, Ord, Hash)]
pub struct LatencyMs {
    value: u32,
}

impl View for LatencyMs {
    type V = u32;

    closed spec fn view(&self) -> u32 {
        self.value
    }
}

impl LatencyMs {
    /// Wraps `value`.
    pub fn new(value: u32) -> (r: LatencyMs)
        ensures
            r@ == value,
    {
        LatencyMs { value }
    }

    /// The number held.
    pub fn into_inner(self) -> (r: u32)
        ensures
            r == self@,
    {
        self.value
    }
}

/// Capture time of a request, in milliseconds.
#[derive(Debug, Clone, Copy, PartialEq, Eq, PartialOrd, Ord, Hash)]
pub struct TimestampMs {
    value: u64,
}

impl View for TimestampMs {
    type V = u64;

    closed spec fn view(&self) -> u64 {
        self.value
    }
}

impl TimestampMs {
    /// Wraps `value`.
    pub fn new(value: u64) -> (r: TimestampMs)
        ensures
            r@ == value,
    {
        TimestampMs { value }
    }

    /// The number held.
    pub fn into_inner(self) -> (r: u64)
        ensures
            r == self@,
    {
        self.value
    }
}

/// Number of documents a query examined.
#[derive(Debug, Clone, Copy, PartialEq, Eq, PartialOrd, Ord, Hash)]
pub struct DocsExamined {
    value: u64,
}

impl View for DocsExamined {
    type V = u64;

    closed spec fn view(&self) -> u64 {
        self.value
    }
}

impl DocsExamined {
    /// Wraps `value`.
    pub fn new(value: u64) -> (r: DocsExamined)
        ensures
            r@ == value,
    {
        DocsExamined { value }
    }

    /// The number held.
    pub fn into_inner(self) -> (r: u64)
        ensures
            r == self@,
    {
        self.value
    }
}

/// Number of documents a query returned.
#[derive(Debug, Clone, Copy, PartialEq, Eq, PartialOrd, Ord, Hash)]
pub struct DocsReturned {
    value: u64,
}

impl View for DocsReturned {
    type V = u64;

    closed spec fn view(&self) -> u64 {
        self.value
    }
}

impl DocsReturned {
    /// Wraps `value`.
    pub fn new(value: u64) -> (r: DocsReturned)
        ensures
            r@ == value,
    {
        DocsReturned { value }
    }

    /// The number held.
    pub fn into_inner(self) -> (r: u64)
        ensures
            r == self@,
    {
        self.value
    }
}

/// Identifier of the client connection a request came on.
#[derive(Debug, Clone, Copy, PartialEq, Eq, Structural, PartialOrd, Ord, Hash)]
pub struct ConnId {
    value: u32,
}

impl View for ConnId {
    type V = u32;

    closed spec fn view(&self) -> u32 {
        self.value
    }
}

impl ConnId {
    /// Wraps `value`.
    pub fn new(value: u32) -> (r: ConnId)
        ensures
            r@ == value,
    {
        ConnId { value }
    }

    /// The number held.
    pub fn into_inner(self) -> (r: u32)
        ensures
            r == self@,
    {
        self.value
    }
}

/// The name a request is filed under: `s` trimmed, or `unknown` when
/// nothing is left of it.
pub open spec fn or_unknown(s: Seq<char>) -> Seq<char> {
    if trimmed(s).len() > 0 {
        trimmed(s)
    } else {
        "unknown"@
    }
}

proof fn lemma_unknown_is_trimmed()
    ensures
        trimmed("unknown"@) == "unknown"@,
        "unknown"@.len() > 0,
{
    reveal_strlit("unknown");
    assert(!crate::text::is_ws("unknown"@[0]));
    assert(!crate::text::is_ws("unknown"@.last()));
}

/// Name of a database: trimmed, never empty.
#[derive(Debug, PartialEq, Eq, Hash)]
pub struct DatabaseName {
    text: String,
}

impl Clone for DatabaseName {
    fn clone(&self) -> (r: Self)
        ensures
            r == *self,
    {
        proof {
            use_type_invariant(self);
        }
        DatabaseName { text: self.text.clone() }
    }
}

impl View for DatabaseName {
    type V = Seq<char>;

    closed spec fn view(&self) -> Seq<char> {
        self.text@
    }
}

impl DatabaseName {
    #[verifier::type_invariant]
    spec fn well_formed(self) -> bool {
        self.text@.len() > 0 && trimmed(self.text@) == self.text@
    }

    /// Trims `text`, then accepts it when something is left.
    pub fn try_new(text: &str) -> (r: Result<DatabaseName, ValidationError>)
        ensures
            trimmed(text@).len() > 0 <==> r is Ok,
            r matches Ok(name) ==> name@ == trimmed(text@),
            r matches Err(e) ==> e == ValidationError::NotEmptyViolated,
    {
        let t = trim_ws(text);
        if t.as_str().is_empty() {
            Err(ValidationError::NotEmptyViolated)
        } else {
            proof {
                crate::text::lemma_trimmed_idempotent(text@);
            }
            Ok(DatabaseName { text: t })
        }
    }

    /// `text` trimmed, or `unknown` when nothing is left of it.
    pub fn or_unknown(text: &str) -> (r: DatabaseName)
        ensures
            r@ == or_unknown(text@),
    {
        match DatabaseName::try_new(text) {
            Ok(name) => name,
            Err(_) => {
                proof {
                    lemma_unknown_is_trimmed();
                }
                let fallback = DatabaseName::try_new("unknown");
                fallback.unwrap()
            },
        }
    }

    /// The text held.
    pub fn as_str(&self) -> (r: &str)
        ensures
            r@ == self@,
            r@.len() > 0,
            trimmed(r@) == r@,
    {
        proof {
            use_type_invariant(self);
        }
        self.text.as_str()
    }

    /// The text held.
    pub fn into_inner(self) -> (r: String)
        ensures
            r@ == self@,
    {
        self.text
    }
}

/// Name of a collection: trimmed, never empty.
#[derive(Debug, PartialEq, Eq, Hash)]
pub struct CollectionName {
    text: String,
}

impl Clone for CollectionName {
    fn clone(&self) -> (r: Self)
        ensures
            r == *self,
    {
        proof {
            use_type_invariant(self);
        }
        CollectionName { text: self.text.clone() }
    }
}

impl View for CollectionName {
    type V = Seq<char>;

    closed spec fn view(&self) -> Seq<char> {
        self.text@
    }
}

impl CollectionName {
    #[verifier::type_invariant]
    spec fn well_formed(self) -> bool {
        self.text@.len() > 0 && trimmed(self.text@) == self.text@
    }

    /// Trims `text`, then accepts it when something is left.
    pub fn try_new(text: &str) -> (r: Result<CollectionName, ValidationError>)
        ensures
            trimmed(text@).len() > 0 <==> r is Ok,
            r matches Ok(name) ==> name@ == trimmed(text@),
            r matches Err(e) ==> e == ValidationError::NotEmptyViolated,
    {
        let t = trim_ws(text);
        if t.as_str().is_empty() {
            Err(ValidationError::NotEmptyViolated)
        } else {
            proof {
                crate::text::lemma_trimmed_idempotent(text@);
            }
            Ok(CollectionName { text: t })
        }
    }

    /// `text` trimmed, or `unknown` when nothing is left of it.
    pub fn or_unknown(text: &str) -> (r: CollectionName)
        ensures
            r@ == or_unknown(text@),
    {
        match CollectionName::try_new(text) {
            Ok(name) => name,
            Err(_) => {
                proof {
                    lemma_unknown_is_trimmed();
                }
                let fallback = CollectionName::try_new("unknown");
                fallback.unwrap()
            },
        }
    }

    /// The text held.
    pub fn as_str(&self) -> (r: &str)
        ensures
            r@ == self@,
            r@.len() > 0,
            trimmed(r@) == r@,
    {
        proof {
            use_type_invariant(self);
        }
        self.text.as_str()
    }

    /// The text held.
    pub fn into_inner(self) -> (r: String)
        ensures
            r@ == self@,
    {
        self.text
    }
}

/// Name a client application reports: trimmed, never empty.
#[derive(Debug, PartialEq, Eq, Hash)]
pub struct AppName {
    text: String,
}

impl Clone for AppName {
    fn clone(&self) -> (r: Self)
        ensures
            r == *self,
    {
        proof {
            use_type_invariant(self);
        }
        AppName { text: self.text.clone() }
    }
}

impl View for AppName {
    type V = Seq<char>;

    closed spec fn view(&self) -> Seq<char> {
        self.text@
    }
}

impl AppName {
    #[verifier::type_invariant]
    spec fn well_formed(self) -> bool {
        self.text@.len() > 0 && trimmed(self.text@) == self.text@
    }

    /// Trims `text`, then accepts it when something is left.
    pub fn try_new(text: &str) -> (r: Result<AppName, ValidationError>)
        ensures
            trimmed(text@).len() > 0 <==> r is Ok,
            r matches Ok(name) ==> name@ == trimmed(text@),
            r matches Err(e) ==> e == ValidationError::NotEmptyViolated,
    {
        let t = trim_ws(text);
        if t.as_str().is_empty() {
            Err(ValidationError::NotEmptyViolated)
        } else {
            proof {
                crate::text::lemma_trimmed_idempotent(text@);
            }
            Ok(AppName { text: t })
        }
    }

    /// `text` trimmed, or `unknown` when nothing is left of it.
    pub fn or_unknown(text: &str) -> (r: AppName)
        ensures
            r@ == or_unknown(text@),
    {
        match AppName::try_new(text) {
            Ok(name) => name,
            Err(_) => {
                proof {
                    lemma_unknown_is_trimmed();
                }
                let fallback = AppName::try_new("unknown");
                fallback.unwrap()
            },
        }
    }

    /// The text held.
    pub fn as_str(&self) -> (r: &str)
        ensures
            r@ == self@,
            r@.len() > 0,
            trimmed(r@) == r@,
    {
        proof {
            use_type_invariant(self);
        }
        self.text.as_str()
    }

    /// The text held.
    pub fn into_inner(self) -> (r: String)
        ensures
            r@ == self@,
    {
        self.text
    }
}

/// Name of an index: trimmed, never empty.
#[derive(Debug, PartialEq, Eq, Hash)]
pub struct IndexName {
    text: String,
}

impl Clone for IndexName {
    fn clone(&self) -> (r: Self)
        ensures
            r == *self,
    {
        proof {
            use_type_invariant(self);
        }
        IndexName { text: self.text.clone() }
    }
}

impl View for IndexName {
    type V = Seq<char>;

    closed spec fn view(&self) -> Seq<char> {
        self.text@
    }
}

impl IndexName {
    #[verifier::type_invariant]
    spec fn well_formed(self) -> bool {
        self.text@.len() > 0 && trimmed(self.text@) == self.text@
    }

    /// Trims `text`, then accepts it when something is left.
    pub fn try_new(text: &str) -> (r: Result<IndexName, ValidationError>)
        ensures
            trimmed(text@).len() > 0 <==> r is Ok,
            r matches Ok(name) ==> name@ == trimmed(text@),
            r matches Err(e) ==> e == ValidationError::NotEmptyViolated,
    {
        let t = trim_ws(text);
        if t.as_str().is_empty() {
            Err(ValidationError::NotEmptyViolated)
        } else {
            proof {
                crate::text::lemma_trimmed_idempotent(text@);
            }
            Ok(IndexName { text: t })
        }
    }

    /// `text` trimmed, or `unknown` when nothing is left of it.
    pub fn or_unknown(text: &str) -> (r: IndexName)
        ensures
            r@ == or_unknown(text@),
    {
        match IndexName::try_new(text) {
            Ok(name) => name,
            Err(_) => {
                proof {
                    lemma_unknown_is_trimmed();
                }
                let fallback = IndexName::try_new("unknown");
                fallback.unwrap()
            },
        }
    }

    /// The text held.
    pub fn as_str(&self) -> (r: &str)
        ensures
            r@ == self@,
            r@.len() > 0,
            trimmed(r@) == r@,
    {
        proof {
            use_type_invariant(self);
        }
        self.text.as_str()
    }

    /// The text held.
    pub fn into_inner(self) -> (r: String)
        ensures
            r@ == self@,
    {
        self.text
    }
}

/// Text typed into the feed filter, trimmed.
#[derive(Debug, Clone, PartialEq, Eq)]
pub struct FilterText {
    text: String,
}

impl View for FilterText {
    type V = Seq<char>;

    closed spec fn view(&self) -> Seq<char> {
        self.text@
    }
}

impl FilterText {
    /// Trims `text`.
    pub fn new(text: &str) -> (r: FilterText)
        ensures
            r@ == trimmed(text@),
    {
        FilterText { text: trim_ws(text) }
    }

    /// The text held.
    pub fn into_inner(self) -> (r: String)
        ensures
            r@ == self@,
    {
        self.text
    }
}

/// Text of a composed query, trimmed.
#[derive(Debug, Clone, PartialEq, Eq)]
pub struct ComposeText {
    text: String,
}

impl View for ComposeText {
    type V = Seq<char>;

    closed spec fn view(&self) -> Seq<char> {
        self.text@
    }
}

impl ComposeText {
    /// Trims `text`.
    pub fn new(text: &str) -> (r: ComposeText)
        ensures
            r@ == trimmed(text@),
    {
        ComposeText { text: trim_ws(text) }
    }

    /// The text held.
    pub fn into_inner(self) -> (r: String)
        ensures
            r@ == self@,
    {
        self.text
    }
}

} // verus!
