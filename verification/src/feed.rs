//! The request feed of one connection: the captured requests, newest
//! first, the selection, pausing, and the latency histogram.

use vstd::prelude::*;
use crate::buckets::{
    bucket_index, counted, empty_bucket, entered, has_room, lemma_room_for_push, room_for, Buckets,
    BUCKET_COUNT,
};
use crate::filter::{
    empty_model, filter_accepts, filter_model, filter_updated, FilterMsg, FilterState, KindFilter,
};
use crate::model::QueryEntry;
use crate::types::QueryId;

verus! {

/// Most requests a feed keeps.
pub const FEED_CAP: usize = 2000;

/// Length of a histogram slice, in milliseconds.
pub const BUCKET_MS: u64 = 500;

/// What the feed asks for.
pub enum FeedMsg {
    Filter(FilterMsg),
    SelectEntry(QueryId),
    TogglePause,
    ClearEntries,
    /// The table scrolled: whether it is now at the very top (under one
    /// pixel) and whether it is past the lock threshold (over fifty).
    Scrolled { near_top: bool, past_threshold: bool },
}

/// The feed of one connection.
pub struct FeedState {
    pub filter: FilterState,
    pub entries: Vec<QueryEntry>,
    pub selected: Option<QueryId>,
    pub buckets: Buckets,
    pub now_ms: u64,
    pub paused: bool,
    pub scroll_locked: bool,
    pub frozen_entries: Vec<QueryEntry>,
    /// Scroll-to-top requests in flight.
    pub pending_scroll_to: u32,
    /// Scroll-by requests in flight.
    pub pending_scroll_by: u32,
}

/// Most rows the table shows while scrolled down.
pub const ROWS_LOCKED: usize = 500;

/// Most rows the table shows at its top.
pub const ROWS_AT_TOP: usize = 150;

/// The rows the table of `f` shows.
pub open spec fn shown_rows(f: FeedState) -> Seq<QueryEntry> {
    let vis = f.entries@.filter(|e: QueryEntry| filter_accepts(f.filter.filter, e));
    let cap = if f.scroll_locked {
        ROWS_LOCKED
    } else {
        ROWS_AT_TOP
    };
    if vis.len() > cap {
        vis.take(cap as int)
    } else {
        vis
    }
}

/// The newest-first list after `e` arrives: it goes first, and the oldest
/// beyond the cap leave.
pub open spec fn with_newest(s: Seq<QueryEntry>, e: QueryEntry) -> Seq<QueryEntry> {
    let t = seq![e] + s;
    if t.len() > FEED_CAP {
        t.take(FEED_CAP as int)
    } else {
        t
    }
}

/// The newest-first list after the requests of `es` arrive, in order.
pub open spec fn with_all_newest(s: Seq<QueryEntry>, es: Seq<QueryEntry>) -> Seq<QueryEntry>
    decreases es.len(),
{
    if es.len() == 0 {
        s
    } else {
        with_newest(with_all_newest(s, es.drop_last()), es.last())
    }
}

/// Whether a scroll event `m` moves the recorded scroll position of `f`:
/// it does unless it is the echo of a programmatic scroll in flight.
pub open spec fn scroll_recorded(f: FeedState, m: FeedMsg) -> bool {
    match m {
        FeedMsg::Scrolled { near_top, past_threshold } => !(near_top && f.pending_scroll_to > 0)
            && !(past_threshold && f.pending_scroll_by > 0),
        _ => false,
    }
}

/// The feed `n` is `o` after the message `m`.
pub open spec fn feed_updated(o: FeedState, n: FeedState, m: FeedMsg) -> bool {
    match m {
        FeedMsg::Filter(fm) => filter_updated(o.filter, n.filter, fm) && n == (FeedState {
            filter: n.filter,
            ..o
        }),
        FeedMsg::SelectEntry(id) => n == (FeedState { selected: Some(id), scroll_locked: true, ..o }),
        FeedMsg::TogglePause => n == (FeedState {
            paused: !o.paused,
            scroll_locked: o.scroll_locked && !o.paused,
            ..o
        }),
        FeedMsg::ClearEntries => {
            &&& n.entries@.len() == 0
            &&& n.frozen_entries@.len() == 0
            &&& n.selected is None
            &&& n.buckets.head == 0
            &&& n.buckets.bucket_ms == BUCKET_MS
            &&& forall|i: int| 0 <= i < BUCKET_COUNT ==> n.buckets.data@[i] == empty_bucket()
            &&& n.filter == o.filter
            &&& n.now_ms == o.now_ms
            &&& n.paused == o.paused
            &&& n.scroll_locked == o.scroll_locked
            &&& n.pending_scroll_to == o.pending_scroll_to
            &&& n.pending_scroll_by == o.pending_scroll_by
        },
        FeedMsg::Scrolled { near_top, past_threshold } => if near_top && o.pending_scroll_to > 0 {
            n == (FeedState { pending_scroll_to: (o.pending_scroll_to - 1) as u32, ..o })
        } else if past_threshold && o.pending_scroll_by > 0 {
            n == (FeedState { pending_scroll_by: (o.pending_scroll_by - 1) as u32, ..o })
        } else {
            n == (FeedState {
                scroll_locked: if past_threshold {
                    true
                } else if near_top {
                    false
                } else {
                    o.scroll_locked
                },
                ..o
            })
        },
    }
}

/// A feed as it starts: well formed, empty, running, unselected, at its
/// top, with an empty filter and input, and an empty histogram.
pub open spec fn fresh_feed(f: FeedState) -> bool {
    &&& f.wf()
    &&& f.filter.input@ == Seq::<char>::empty()
    &&& filter_model(f.filter.filter) == empty_model()
    &&& f.filter.filter.kind == KindFilter::All
    &&& f.buckets.head == 0
    &&& forall|i: int| 0 <= i < BUCKET_COUNT ==> f.buckets.data@[i] == empty_bucket()
    &&& f.entries@.len() == 0
    &&& f.selected is None
    &&& f.now_ms == 0
    &&& !f.paused
    &&& !f.scroll_locked
    &&& f.frozen_entries@.len() == 0
    &&& f.pending_scroll_to == 0
    &&& f.pending_scroll_by == 0
}

impl FeedState {
    /// The histogram is a well-formed ring of half-second slices.
    pub open spec fn wf(&self) -> bool {
        self.buckets.wf() && self.buckets.bucket_ms == BUCKET_MS
    }

    /// An empty, running feed that shows everything.
    pub fn new() -> (r: Self)
        ensures
            fresh_feed(r),
    {
        FeedState {
            filter: FilterState::new(),
            entries: Vec::new(),
            selected: None,
            buckets: Buckets::new(BUCKET_MS),
            now_ms: 0,
            paused: false,
            scroll_locked: false,
            frozen_entries: Vec::new(),
            pending_scroll_to: 0,
            pending_scroll_by: 0,
        }
    }

    /// Adds a captured request unless the feed is paused; says whether it
    /// was added.
    pub fn push_entry(&mut self, entry: QueryEntry) -> (added: bool)
        requires
            old(self).wf(),
            has_room(
                entered(old(self).buckets, bucket_index(entry.t_ms@, BUCKET_MS)),
                entry.latency_ms@,
            ),
        ensures
            final(self).wf(),
            added == !old(self).paused,
            added ==> final(self).entries@ == with_newest(old(self).entries@, entry)
                && final(self).now_ms == entry.t_ms@,
            added ==> final(self).buckets.data@ == old(self).buckets.data@.update(
                bucket_index(entry.t_ms@, BUCKET_MS),
                counted(
                    entered(old(self).buckets, bucket_index(entry.t_ms@, BUCKET_MS)),
                    entry.latency_ms@,
                ),
            ),
            !added ==> *final(self) == *old(self),
            final(self).paused == old(self).paused,
            final(self).selected == old(self).selected,
            final(self).filter == old(self).filter,
            final(self).scroll_locked == old(self).scroll_locked,
            final(self).frozen_entries == old(self).frozen_entries,
            final(self).pending_scroll_to == old(self).pending_scroll_to,
            final(self).pending_scroll_by == old(self).pending_scroll_by,
    {
        if self.paused {
            return false;
        }
        self.now_ms = entry.t_ms.into_inner();
        self.buckets.push(&entry, self.now_ms);
        self.entries.insert(0, entry);
        self.entries.truncate(FEED_CAP);
        assert(self.entries@ =~= with_newest(old(self).entries@, entry));
        true
    }

    /// Adds captured requests in order, each newest so far, unless the
    /// feed is paused; says how many were added.
    pub fn push_entries(&mut self, entries: Vec<QueryEntry>) -> (added: usize)
        requires
            old(self).wf(),
            room_for(old(self).buckets.data@, entries@.len()),
        ensures
            final(self).wf(),
            added == if old(self).paused {
                0
            } else {
                entries@.len()
            },
            old(self).paused ==> *final(self) == *old(self),
            !old(self).paused ==> final(self).entries@ == with_all_newest(
                old(self).entries@,
                entries@,
            ),
            final(self).now_ms == if !old(self).paused && entries@.len() > 0 {
                entries@.last().t_ms@
            } else {
                old(self).now_ms
            },
            final(self).paused == old(self).paused,
            final(self).selected == old(self).selected,
            final(self).filter == old(self).filter,
            final(self).scroll_locked == old(self).scroll_locked,
            final(self).frozen_entries == old(self).frozen_entries,
            final(self).pending_scroll_to == old(self).pending_scroll_to,
            final(self).pending_scroll_by == old(self).pending_scroll_by,
    {
        if self.paused {
            return 0;
        }
        let n = entries.len();
        let mut added: usize = 0;
        let mut rest = entries;
        let ghost all = rest@;
        // Taken from the back, so reverse once to keep the arrival order.
        let mut pending: Vec<QueryEntry> = Vec::new();
        while rest.len() > 0
            invariant
                pending@ + rest@.reverse() == all.reverse(),
            decreases rest@.len(),
        {
            let ghost before = rest@;
            let e = rest.pop().unwrap();
            proof {
                assert(before == rest@.push(e));
                assert(before.reverse() =~= seq![e] + rest@.reverse());
            }
            let ghost p = pending@;
            pending.push(e);
            assert(pending@ + rest@.reverse() =~= p + (seq![e] + rest@.reverse()));
        }
        assert(pending@ =~= all.reverse());
        while pending.len() > 0
            invariant
                self.wf(),
                !self.paused,
                added <= n,
                n == all.len(),
                pending@.reverse() == all.skip(added as int),
                room_for(self.buckets.data@, (n - added) as nat),
                self.entries@ == with_all_newest(old(self).entries@, all.take(added as int)),
                self.now_ms == if added == 0 {
                    old(self).now_ms
                } else {
                    all[added - 1].t_ms@
                },
                self.selected == old(self).selected,
                self.filter == old(self).filter,
                self.scroll_locked == old(self).scroll_locked,
                self.frozen_entries == old(self).frozen_entries,
                self.pending_scroll_to == old(self).pending_scroll_to,
                self.pending_scroll_by == old(self).pending_scroll_by,
            decreases pending@.len(),
        {
            let ghost before = pending@;
            let e = pending.pop().unwrap();
            proof {
                assert(before == pending@.push(e));
                assert(before.reverse() =~= seq![e] + pending@.reverse());
                assert(all.skip(added as int)[0] == e);
                assert(all.skip(added + 1) =~= all.skip(added as int).skip(1));
                assert(all.take(added + 1) =~= all.take(added as int).push(e));
                assert(all.take(added + 1).drop_last() =~= all.take(added as int));
                lemma_room_for_push(
                    self.buckets,
                    (n - added - 1) as nat,
                    bucket_index(e.t_ms@, BUCKET_MS),
                    e.latency_ms@,
                );
            }
            self.push_entry(e);
            added = added + 1;
        }
        assert(all.take(n as int) =~= all);
        added
    }

    /// Applies a feed message; for a scroll, says whether the new scroll
    /// position is to be recorded (it is not while a programmatic scroll
    /// is being absorbed).
    pub fn update(&mut self, msg: FeedMsg) -> (record: bool)
        requires
            old(self).wf(),
        ensures
            final(self).wf(),
            feed_updated(*old(self), *final(self), msg),
            record == scroll_recorded(*old(self), msg),
    {
        match msg {
            FeedMsg::Filter(m) => {
                self.filter.update(m);
                false
            },
            FeedMsg::SelectEntry(id) => {
                self.selected = Some(id);
                self.scroll_locked = true;
                false
            },
            FeedMsg::TogglePause => {
                self.paused = !self.paused;
                if !self.paused {
                    self.scroll_locked = false;
                }
                false
            },
            FeedMsg::ClearEntries => {
                self.entries.clear();
                self.frozen_entries.clear();
                self.buckets = Buckets::new(BUCKET_MS);
                self.selected = None;
                false
            },
            FeedMsg::Scrolled { near_top, past_threshold } => {
                if near_top && self.pending_scroll_to > 0 {
                    self.pending_scroll_to = self.pending_scroll_to - 1;
                    return false;
                }
                if past_threshold && self.pending_scroll_by > 0 {
                    self.pending_scroll_by = self.pending_scroll_by - 1;
                    return false;
                }
                if past_threshold {
                    self.scroll_locked = true;
                } else if near_top && self.scroll_locked {
                    self.scroll_locked = false;
                }
                true
            },
        }
    }

    /// The rows the table shows: the requests the filter lets through,
    /// newest first, at most `ROWS_LOCKED` while the table is scrolled
    /// down and `ROWS_AT_TOP` at its top.
    pub fn shown_entries(&self) -> (r: Vec<&QueryEntry>)
        ensures
            r@.map_values(|e: &QueryEntry| *e) == shown_rows(*self),
    {
        let mut v = self.visible_entries();
        let cap = if self.scroll_locked {
            ROWS_LOCKED
        } else {
            ROWS_AT_TOP
        };
        let ghost all = v@;
        v.truncate(cap);
        proof {
            let vis = self.entries@.filter(|e: QueryEntry| filter_accepts(self.filter.filter, e));
            if all.len() > cap {
                assert(v@ =~= all.take(cap as int));
                assert(v@.map_values(|e: &QueryEntry| *e) =~= vis.take(cap as int));
            } else {
                assert(v@ =~= all);
            }
        }
        v
    }

    /// The requests the filter lets through, newest first.
    pub fn visible_entries(&self) -> (r: Vec<&QueryEntry>)
        ensures
            r@.len() <= self.entries@.len(),
            forall|i: int| 0 <= i < r@.len() ==> filter_accepts(self.filter.filter, *r@[i]),
            r@.map_values(|e: &QueryEntry| *e) == self.entries@.filter(
                |e: QueryEntry| filter_accepts(self.filter.filter, e),
            ),
    {
        let mut out: Vec<&QueryEntry> = Vec::new();
        let mut i: usize = 0;
        while i < self.entries.len()
            invariant
                0 <= i <= self.entries@.len(),
                out@.map_values(|e: &QueryEntry| *e) == self.entries@.take(i as int).filter(
                    |e: QueryEntry| filter_accepts(self.filter.filter, e),
                ),
                out@.len() <= i,
                forall|k: int| 0 <= k < out@.len() ==> filter_accepts(self.filter.filter, *out@[k]),
            decreases self.entries@.len() - i,
        {
            let e = &self.entries[i];
            let ghost before = self.entries@.take(i as int);
            assert(self.entries@.take(i + 1).drop_last() =~= before);
            reveal(Seq::filter);
            if self.filter.matches(e) {
                out.push(e);
            }
            assert(out@.map_values(|e: &QueryEntry| *e) =~= self.entries@.take(i + 1).filter(
                |e: QueryEntry| filter_accepts(self.filter.filter, e),
            ));
            i += 1;
        }
        assert(self.entries@.take(self.entries@.len() as int) =~= self.entries@);
        out
    }
}

/// A request just added leads the feed, and the feed never passes its
/// cap.
pub proof fn lemma_newest_first_within_cap(s: Seq<QueryEntry>, e: QueryEntry)
    requires
        s.len() <= FEED_CAP,
    ensures
        with_newest(s, e).len() <= FEED_CAP,
        with_newest(s, e).len() > 0,
        with_newest(s, e)[0] == e,
        with_newest(s, e).len() == if s.len() < FEED_CAP {
            s.len() + 1
        } else {
            FEED_CAP as nat
        },
{
}

} // verus!
