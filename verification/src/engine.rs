//! The driver: owns the fact log and all derived state, applies one
//! transaction at a time, and returns the per-session batches that the
//! transaction caused.

use vstd::prelude::*;

use crate::compute::diffs_pm1;
use crate::data::{bv, lv, ov, OutItem, Persisted, Update, UpdateV};
use crate::delta::{delta_x, demux_x};
use crate::model::{delta_spec, demux_spec, output_spec};
use crate::results::compute_output;

verus! {

/// Posts per page of the post listing, as configured by default.
pub const POSTS_PER_PAGE: u64 = 2;

/// The updates one transaction appends to the log: every item of the batch,
/// tagged with the submitting session and the transaction's logical time.
pub open spec fn tx_views(items: Seq<(u64, Persisted, i64)>, addr: u64, t: u64) -> Seq<UpdateV> {
    items.map_values(
        |it: (u64, Persisted, i64)|
            UpdateV { addr, id: it.0, fact: it.1@, time: t, diff: it.2 },
    )
}

proof fn tx_take_step(items: Seq<(u64, Persisted, i64)>, addr: u64, t: u64, i: int)
    requires
        0 <= i < items.len(),
    ensures
        tx_views(items.take(i + 1), addr, t) == tx_views(items.take(i), addr, t).push(
            UpdateV {
                addr,
                id: items[i].0,
                fact: items[i].1@,
                time: t,
                diff: items[i].2,
            },
        ),
{
    let f = |it: (u64, Persisted, i64)| UpdateV {
        addr,
        id: it.0,
        fact: it.1@,
        time: t,
        diff: it.2,
    };
    assert(tx_views(items.take(i + 1), addr, t) == items.take(i + 1).map_values(f));
    assert(tx_views(items.take(i), addr, t) == items.take(i).map_values(f));
    assert(items.take(i + 1).map_values(f) =~= items.take(i).map_values(f).push(f(items[i])));
}

/// The incremental engine: one owned value holds the fact log, the logical
/// clock and the previously emitted result state; there are no singletons.
pub struct Engine {
    /// Every update ever applied, in order; the multiset semantics of the
    /// collection are functions of this log.
    pub log: Vec<Update>,
    /// Logical time: the number of transactions applied so far.
    pub time: u64,
    /// The consolidated output collection after the last step; the next
    /// step's delta is computed against it.
    pub prev: Vec<OutItem>,
    /// Posts per page of the post listing.
    pub page_size: u64,
}

impl Engine {
    /// The engine's invariant: the stored result state is exactly the
    /// derived output of the log, so every step's delta against it makes
    /// the client's view match a full recomputation.
    pub open spec fn wf(self) -> bool {
        &&& self.page_size >= 1
        &&& diffs_pm1(lv(self.log@))
        &&& ov(self.prev@) == output_spec(lv(self.log@), self.page_size)
    }

    /// A fresh engine with the given page size, an empty log, and time zero.
    pub fn new(page_size: u64) -> (e: Engine)
        requires
            page_size >= 1,
        ensures
            e.wf(),
            e.page_size == page_size,
            e.time == 0,
            e.log@.len() == 0,
            e.prev@.len() == 0,
    {
        let e = Engine { log: Vec::new(), time: 0, prev: Vec::new(), page_size };
        proof {
            let l = lv(e.log@);
            assert(l =~= Seq::<UpdateV>::empty());
            assert(crate::model::addr_cands(l) =~= Seq::<u64>::empty());
            assert(output_spec(l, page_size) =~= Seq::<crate::data::OutV>::empty());
            assert(ov(e.prev@) =~= Seq::<crate::data::OutV>::empty());
        }
        e
    }

    /// Applies one transaction: appends every item of the batch to the log
    /// at the next logical time, recomputes the derived output, and returns
    /// one batch per affected session holding exactly what changed —
    /// `DeletePost` for posts that left a session's view, then every result
    /// not already delivered.
    pub fn apply(&mut self, addr: u64, items: Vec<(u64, Persisted, i64)>) -> (batches: Vec<
        (u64, Vec<crate::data::QueryResult>),
    >)
        requires
            old(self).wf(),
            old(self).time < u64::MAX,
            forall|j: int|
                0 <= j < items@.len() ==> (#[trigger] items@[j]).2 == 1 || items@[j].2 == -1,
        ensures
            final(self).wf(),
            final(self).page_size == old(self).page_size,
            final(self).time == old(self).time + 1,
            lv(final(self).log@) == lv(old(self).log@) + tx_views(
                items@,
                addr,
                (old(self).time + 1) as u64,
            ),
            ov(final(self).prev@) == output_spec(lv(final(self).log@), old(self).page_size),
            bv(batches@) == demux_spec(
                delta_spec(
                    output_spec(lv(old(self).log@), old(self).page_size),
                    output_spec(lv(final(self).log@), old(self).page_size),
                ),
            ),
    {
        let ghost oldl = lv(self.log@);
        let t = self.time + 1;
        self.time = t;
        let mut i: usize = 0;
        proof {
            assert(oldl + tx_views(items@.take(0), addr, t) =~= oldl);
        }
        while i < items.len()
            invariant
                0 <= i <= items@.len(),
                self.page_size == old(self).page_size,
                self.time == old(self).time + 1,
                self.prev == old(self).prev,
                t == old(self).time + 1,
                ov(self.prev@) == output_spec(oldl, old(self).page_size),
                self.page_size >= 1,
                forall|j: int|
                    0 <= j < items@.len() ==> (#[trigger] items@[j]).2 == 1 || items@[j].2 == -1,
                diffs_pm1(lv(self.log@)),
                lv(self.log@) == oldl + tx_views(items@.take(i as int), addr, t),
            decreases items@.len() - i,
        {
            proof {
                crate::compute::take_step(items@, i as int);
            }
            let ghost prevlog = self.log@;
            let u = Update {
                addr,
                id: items[i].0,
                fact: items[i].1.clone(),
                time: t,
                diff: items[i].2,
            };
            self.log.push(u);
            proof {
                crate::data::lv_push(prevlog, self.log@.last(), self.log@);
                tx_take_step(items@, addr, t, i as int);
                assert(lv(self.log@) =~= oldl + tx_views(items@.take(i + 1), addr, t));
                assert forall|j: int| 0 <= j < lv(self.log@).len() implies lv(self.log@)[j].diff
                    == 1 || lv(self.log@)[j].diff == -1 by {
                    if j < lv(prevlog).len() {
                        assert(lv(self.log@)[j] == lv(prevlog)[j]);
                    } else {
                        assert(lv(self.log@)[j] == self.log@.last()@);
                    }
                }
            }
            i += 1;
        }
        proof {
            crate::compute::take_all(items@);
        }
        let new_out = compute_output(&self.log, self.page_size);
        let d = delta_x(&self.prev, &new_out);
        let batches = demux_x(&d);
        self.prev = new_out;
        batches
    }
}

} // verus!
