//! The rolling latency histogram drawn above the feed: a ring of buckets,
//! each counting the requests of one time slice by latency class.

use vstd::prelude::*;
use crate::model::QueryEntry;

verus! {

/// Number of buckets in the ring.
pub const BUCKET_COUNT: usize = 80;

/// The requests of one time slice, by latency class.
#[derive(Debug, Clone, Copy)]
pub struct BucketData {
    pub ok: u32,
    pub warn: u32,
    pub slow: u32,
}

impl Default for BucketData {
    fn default() -> (r: Self)
        ensures
            r == (BucketData { ok: 0, warn: 0, slow: 0 }),
    {
        BucketData { ok: 0, warn: 0, slow: 0 }
    }
}

/// An empty bucket.
pub open spec fn empty_bucket() -> BucketData {
    BucketData { ok: 0, warn: 0, slow: 0 }
}

/// The bucket after one request of latency `ms`: one second and over is
/// slow, a tenth of a second and over a warning, the rest ok.
pub open spec fn counted(b: BucketData, ms: u32) -> BucketData {
    if ms >= 1000 {
        BucketData { slow: (b.slow + 1) as u32, ..b }
    } else if ms >= 100 {
        BucketData { warn: (b.warn + 1) as u32, ..b }
    } else {
        BucketData { ok: (b.ok + 1) as u32, ..b }
    }
}

/// Whether one more request of latency `ms` fits in the counters of `b`.
pub open spec fn has_room(b: BucketData, ms: u32) -> bool {
    if ms >= 1000 {
        b.slow < u32::MAX
    } else if ms >= 100 {
        b.warn < u32::MAX
    } else {
        b.ok < u32::MAX
    }
}

/// Every counter of the ring can take `n` more requests.
pub open spec fn room_for(data: Seq<BucketData>, n: nat) -> bool {
    forall|i: int|
        0 <= i < data.len() ==> {
            &&& (#[trigger] data[i]).ok + n <= u32::MAX
            &&& data[i].warn + n <= u32::MAX
            &&& data[i].slow + n <= u32::MAX
        }
}

/// All requests of a bucket.
pub open spec fn bucket_total(b: BucketData) -> int {
    b.ok + b.warn + b.slow
}

/// Rolling 80-bucket histogram. Each bucket = latest N ms of data.
pub struct Buckets {
    pub data: Vec<BucketData>,
    pub bucket_ms: u64,
    pub head: usize,
}

/// The ring position of the slice that holds time `now_ms`.
pub open spec fn bucket_index(now_ms: u64, bucket_ms: u64) -> int {
    ((now_ms / bucket_ms) as usize) as int % (BUCKET_COUNT as int)
}

/// The bucket at ring position `i` once the ring has moved to it.
pub open spec fn entered(bs: Buckets, i: int) -> BucketData {
    if i != bs.head {
        empty_bucket()
    } else {
        bs.data@[i]
    }
}

impl Buckets {
    /// The ring has its buckets and a head inside it.
    pub open spec fn wf(&self) -> bool {
        self.data@.len() == BUCKET_COUNT && self.head < BUCKET_COUNT
    }

    /// An empty ring of slices of `bucket_ms` milliseconds.
    pub fn new(bucket_ms: u64) -> (r: Self)
        ensures
            r.wf(),
            r.bucket_ms == bucket_ms,
            r.head == 0,
            forall|i: int| 0 <= i < BUCKET_COUNT ==> r.data@[i] == empty_bucket(),
    {
        let mut data: Vec<BucketData> = Vec::new();
        let mut i: usize = 0;
        while i < BUCKET_COUNT
            invariant
                0 <= i <= BUCKET_COUNT,
                data@.len() == i,
                forall|j: int| 0 <= j < i ==> data@[j] == empty_bucket(),
            decreases BUCKET_COUNT - i,
        {
            data.push(BucketData::default());
            i += 1;
        }
        Buckets { data, bucket_ms, head: 0 }
    }

    /// Counts `entry` in the slice of `now_ms`, emptying that slice first
    /// when the ring moves to it.
    pub fn push(&mut self, entry: &QueryEntry, now_ms: u64)
        requires
            old(self).wf(),
            old(self).bucket_ms > 0,
            has_room(
                entered(*old(self), bucket_index(now_ms, old(self).bucket_ms)),
                entry.latency_ms@,
            ),
        ensures
            final(self).wf(),
            final(self).bucket_ms == old(self).bucket_ms,
            final(self).head == bucket_index(now_ms, old(self).bucket_ms),
            final(self).data@ == old(self).data@.update(
                bucket_index(now_ms, old(self).bucket_ms),
                counted(
                    entered(*old(self), bucket_index(now_ms, old(self).bucket_ms)),
                    entry.latency_ms@,
                ),
            ),
            bucket_index(now_ms, old(self).bucket_ms) != old(self).head ==> bucket_total(
                final(self).data@[bucket_index(now_ms, old(self).bucket_ms)],
            ) == 1,
            bucket_index(now_ms, old(self).bucket_ms) == old(self).head ==> bucket_total(
                final(self).data@[bucket_index(now_ms, old(self).bucket_ms)],
            ) == bucket_total(old(self).data@[bucket_index(now_ms, old(self).bucket_ms)]) + 1,
    {
        let bucket_idx = ((now_ms / self.bucket_ms) as usize) % BUCKET_COUNT;
        if bucket_idx != self.head {
            self.data.set(bucket_idx, BucketData::default());
            self.head = bucket_idx;
        }
        let ms = entry.latency_ms.into_inner();
        let mut b = self.data[bucket_idx];
        if ms >= 1000 {
            b.slow = b.slow + 1;
        } else if ms >= 100 {
            b.warn = b.warn + 1;
        } else {
            b.ok = b.ok + 1;
        }
        self.data.set(bucket_idx, b);
    }

    /// The buckets from the oldest slice to the newest: the ring read from
    /// just after the head.
    pub fn ordered(&self) -> (r: Vec<BucketData>)
        requires
            self.wf(),
        ensures
            r@.len() == BUCKET_COUNT,
            forall|i: int|
                0 <= i < BUCKET_COUNT ==> r@[i] == self.data@[(self.head + 1 + i) % (
                BUCKET_COUNT as int)],
    {
        let start = (self.head + 1) % BUCKET_COUNT;
        let mut out: Vec<BucketData> = Vec::new();
        let mut i: usize = 0;
        while i < BUCKET_COUNT
            invariant
                self.wf(),
                start == (self.head + 1) % (BUCKET_COUNT as int),
                0 <= i <= BUCKET_COUNT,
                out@.len() == i,
                forall|j: int|
                    0 <= j < i ==> out@[j] == self.data@[(self.head + 1 + j) % (
                    BUCKET_COUNT as int)],
            decreases BUCKET_COUNT - i,
        {
            let k = (start + i) % BUCKET_COUNT;
            assert(k == (self.head + 1 + i) % (BUCKET_COUNT as int));
            out.push(self.data[k]);
            i += 1;
        }
        out
    }

    /// The largest bucket total, and at least one.
    pub fn max_total(&self) -> (r: u32)
        requires
            self.wf(),
            forall|i: int| 0 <= i < BUCKET_COUNT ==> bucket_total(#[trigger] self.data@[i]) <= u32::MAX,
        ensures
            r >= 1,
            forall|i: int| 0 <= i < BUCKET_COUNT ==> bucket_total(#[trigger] self.data@[i]) <= r,
            r == 1 || exists|i: int| 0 <= i < BUCKET_COUNT && bucket_total(#[trigger] self.data@[i]) == r,
    {
        let mut best: u32 = 1;
        let mut i: usize = 0;
        while i < BUCKET_COUNT
            invariant
                self.wf(),
                forall|j: int| 0 <= j < BUCKET_COUNT ==> bucket_total(#[trigger] self.data@[j]) <= u32::MAX,
                0 <= i <= BUCKET_COUNT,
                best >= 1,
                forall|j: int| 0 <= j < i ==> bucket_total(#[trigger] self.data@[j]) <= best,
                best == 1 || exists|j: int| 0 <= j < i && bucket_total(#[trigger] self.data@[j]) == best,
            decreases BUCKET_COUNT - i,
        {
            let b = self.data[i];
            assert(bucket_total(self.data@[i as int]) <= u32::MAX);
            let t = b.ok + b.warn + b.slow;
            if t > best {
                best = t;
            }
            i += 1;
        }
        best
    }
}

/// Counting a request raises the total of its bucket by one.
pub proof fn lemma_push_counts_one(b: BucketData, ms: u32)
    requires
        has_room(b, ms),
    ensures
        bucket_total(counted(b, ms)) == bucket_total(b) + 1,
{
}


/// What one push leaves in the ring: when the request falls in a slice
/// other than the current one, that slice holds exactly the one request
/// just counted, in its latency class, whatever it held a full turn of
/// the ring earlier; when it falls in the current slice, that slice
/// counts one request more; every other slice is left as it was.
pub proof fn lemma_push_slice(before: Buckets, after: Buckets, now_ms: u64, ms: u32)
    requires
        before.wf(),
        before.bucket_ms > 0,
        has_room(entered(before, bucket_index(now_ms, before.bucket_ms)), ms),
        after.data@ == before.data@.update(
            bucket_index(now_ms, before.bucket_ms),
            counted(entered(before, bucket_index(now_ms, before.bucket_ms)), ms),
        ),
    ensures
        ({
            let i = bucket_index(now_ms, before.bucket_ms);
            &&& 0 <= i < BUCKET_COUNT
            &&& i != before.head ==> bucket_total(after.data@[i]) == 1
            &&& i != before.head && ms >= 1000 ==> after.data@[i] == (BucketData { ok: 0, warn: 0, slow: 1 })
            &&& i != before.head && 100 <= ms < 1000 ==> after.data@[i] == (BucketData { ok: 0, warn: 1, slow: 0 })
            &&& i != before.head && ms < 100 ==> after.data@[i] == (BucketData { ok: 1, warn: 0, slow: 0 })
            &&& i == before.head ==> bucket_total(after.data@[i]) == bucket_total(before.data@[i]) + 1
            &&& forall|j: int| 0 <= j < BUCKET_COUNT && j != i ==> after.data@[j] == before.data@[j]
        }),
{
}

/// A ring with room for `n + 1` requests takes the next one, and keeps
/// room for `n` more after it.
pub proof fn lemma_room_for_push(bs: Buckets, n: nat, i: int, ms: u32)
    requires
        bs.wf(),
        0 <= i < BUCKET_COUNT,
        room_for(bs.data@, n + 1),
    ensures
        has_room(entered(bs, i), ms),
        room_for(bs.data@.update(i, counted(entered(bs, i), ms)), n),
{
    assert(bs.data@[i].ok + n + 1 <= u32::MAX);
    let d = bs.data@.update(i, counted(entered(bs, i), ms));
    assert forall|k: int| 0 <= k < d.len() implies {
        &&& (#[trigger] d[k]).ok + n <= u32::MAX
        &&& d[k].warn + n <= u32::MAX
        &&& d[k].slow + n <= u32::MAX
    } by {
        assert(bs.data@[k].ok + n + 1 <= u32::MAX);
    }
}

} // verus!
