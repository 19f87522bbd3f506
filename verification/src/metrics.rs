//! Observation-only counters for the sync pipeline: durations and sizes per
//! step, the indexed heights, and store size properties. No control flow
//! depends on them.
use vstd::prelude::*;
use crate::batch::WriteBatch;
use crate::chain::Chain;
use crate::rows::HashPrefixRow;
use crate::store::Store;

verus! {

/// Saturating 64-bit addition.
pub open spec fn sat_add(a: u64, b: u64) -> u64 {
    if a + b > u64::MAX {
        u64::MAX
    } else {
        (a + b) as u64
    }
}

/// The persisted byte size of `n` family rows, saturated.
pub open spec fn row_bytes(n: nat) -> u64 {
    if n * 12 <= u64::MAX {
        (n * 12) as u64
    } else {
        u64::MAX
    }
}

/// A count and a running total of observed values.
#[derive(Clone, Copy, Debug, PartialEq, Eq, Structural)]
pub struct Histogram {
    pub count: u64,
    pub sum: u64,
}

impl Histogram {
    /// The histogram after one observation.
    pub open spec fn spec_observe(self, v: u64) -> Histogram {
        Histogram { count: sat_add(self.count, 1), sum: sat_add(self.sum, v) }
    }

    /// Record one observation.
    pub fn observe(&mut self, v: u64)
        ensures
            *final(self) == old(self).spec_observe(v),
    {
        self.count = if self.count == u64::MAX {
            u64::MAX
        } else {
            self.count + 1
        };
        self.sum = if self.sum > u64::MAX - v {
            u64::MAX
        } else {
            self.sum + v
        };
    }
}

/// The last value set.
#[derive(Clone, Copy, Debug, PartialEq, Eq, Structural)]
pub struct Gauge {
    pub value: u64,
}

impl Gauge {
    /// Overwrite the gauge.
    pub fn set(&mut self, v: u64)
        ensures
            final(self).value == v,
    {
        self.value = v;
    }
}

/// The pipeline's observation set.
#[derive(Clone, Copy, Debug, PartialEq, Eq, Structural)]
pub struct Stats {
    pub update_duration: Histogram,
    pub update_size: Histogram,
    pub height: Gauge,
    pub sp_height: Gauge,
    pub db_properties: Gauge,
}

impl Stats {
    /// Fresh, zeroed observations.
    pub fn new() -> (r: Stats)
        ensures
            r.update_duration.count == 0 && r.update_duration.sum == 0,
            r.update_size.count == 0 && r.update_size.sum == 0,
            r.height.value == 0,
            r.sp_height.value == 0,
            r.db_properties.value == 0,
    {
        Stats {
            update_duration: Histogram { count: 0, sum: 0 },
            update_size: Histogram { count: 0, sum: 0 },
            height: Gauge { value: 0 },
            sp_height: Gauge { value: 0 },
            db_properties: Gauge { value: 0 },
        }
    }

    /// Record how long one pipeline step took (measured by the caller).
    pub fn observe_duration(&mut self, micros: u64)
        ensures
            final(self).update_duration == old(self).update_duration.spec_observe(micros),
            final(self).update_size == old(self).update_size,
            final(self).height == old(self).height,
            final(self).sp_height == old(self).sp_height,
            final(self).db_properties == old(self).db_properties,
    {
        self.update_duration.observe(micros);
    }

    /// Record the persisted size of one row family.
    pub fn observe_size(&mut self, rows: &Vec<HashPrefixRow>)
        ensures
            final(self).update_size == old(self).update_size.spec_observe(
                row_bytes(rows@.len()),
            ),
            final(self).update_duration == old(self).update_duration,
            final(self).height == old(self).height,
            final(self).sp_height == old(self).sp_height,
            final(self).db_properties == old(self).db_properties,
    {
        let l = rows.len() as u64;
        let sz = if l <= u64::MAX / 12 {
            l * 12
        } else {
            u64::MAX
        };
        self.update_size.observe(sz);
    }

    /// Record the sizes of a batch's sorted row families.
    pub fn observe_batch(&mut self, batch: &WriteBatch)
        ensures
            final(self).update_size == old(self).update_size.spec_observe(
                row_bytes(batch.funding_rows@.len()),
            ).spec_observe(row_bytes(batch.spending_rows@.len())).spec_observe(
                row_bytes(batch.txid_rows@.len()),
            ),
            final(self).update_duration == old(self).update_duration,
            final(self).height == old(self).height,
            final(self).sp_height == old(self).sp_height,
            final(self).db_properties == old(self).db_properties,
    {
        self.observe_size(&batch.funding_rows);
        self.observe_size(&batch.spending_rows);
        self.observe_size(&batch.txid_rows);
    }

    /// Record the chain's tip height.
    pub fn observe_chain(&mut self, chain: &Chain)
        requires
            chain.wf(),
        ensures
            final(self).height.value == chain.entries@.len() - 1,
            final(self).update_duration == old(self).update_duration,
            final(self).update_size == old(self).update_size,
            final(self).sp_height == old(self).sp_height,
            final(self).db_properties == old(self).db_properties,
    {
        let h = chain.height();
        self.height.set(h as u64);
    }

    /// Record the store's total row count across families (saturated).
    pub fn observe_db(&mut self, store: &Store)
        ensures
            final(self).db_properties.value == sat_add(
                sat_add(
                    sat_add((store.funding@.len() as u64), (store.spending@.len() as u64)),
                    (store.txid@.len() as u64),
                ),
                (store.headers@.len() as u64),
            ),
            final(self).update_duration == old(self).update_duration,
            final(self).update_size == old(self).update_size,
            final(self).height == old(self).height,
            final(self).sp_height == old(self).sp_height,
    {
        let props = store.get_properties();
        let mut total: u64 = 0;
        let n = props.len();
        let ghost lens = seq![
            store.funding@.len() as u64,
            store.spending@.len() as u64,
            store.txid@.len() as u64,
            store.headers@.len() as u64,
        ];
        let mut i: usize = 0;
        while i < n
            invariant
                n == props@.len(),
                n == 4,
                forall|q: int| 0 <= q < 4 ==> (#[trigger] props@[q]).1 == lens[q],
                0 <= i <= n,
                i == 0 ==> total == 0,
                i == 1 ==> total == lens[0],
                i == 2 ==> total == sat_add(lens[0], lens[1]),
                i == 3 ==> total == sat_add(sat_add(lens[0], lens[1]), lens[2]),
                i == 4 ==> total == sat_add(sat_add(sat_add(lens[0], lens[1]), lens[2]), lens[3]),
            decreases n - i,
        {
            let v = props.get(i).unwrap().1;
            total = if total > u64::MAX - v {
                u64::MAX
            } else {
                total + v
            };
            i += 1;
        }
        self.db_properties.set(total);
    }
}

} // verus!
