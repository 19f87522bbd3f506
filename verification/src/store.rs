//! In-memory model of the persistent key-value store: three sorted row
//! families, header rows keyed by height, the two progress bookmarks, and the
//! per-block tweak records. A write applies one batch atomically; reads
//! iterate a family in key order.
use vstd::prelude::*;
use vstd::seq_lib::lemma_multiset_commutative;
use crate::batch::{insert_sorted, WriteBatch};
use crate::rows::{rows_sorted, HashPrefixRow, HeaderRow};
use crate::types::copy_bytes;

verus! {

/// Field-wise equality of two header rows.
pub open spec fn header_eqv(a: HeaderRow, b: HeaderRow) -> bool {
    a.height == b.height && a.hash@ == b.hash@ && a.header@ == b.header@
}

/// Clone of one header row, pinned field-wise.
pub fn clone_header(h: &HeaderRow) -> (r: HeaderRow)
    ensures
        header_eqv(r, *h),
{
    HeaderRow { height: h.height, hash: copy_bytes(&h.hash), header: copy_bytes(&h.header) }
}

/// The rows of a family that share a key prefix, in their stored order.
pub open spec fn prefix_filter(rows: Seq<HashPrefixRow>, prefix: u64) -> Seq<HashPrefixRow> {
    rows.filter(|row: HashPrefixRow| row.prefix == prefix)
}

/// The store's contents.
pub struct Store {
    pub funding: Vec<HashPrefixRow>,
    pub spending: Vec<HashPrefixRow>,
    pub txid: Vec<HashPrefixRow>,
    pub headers: Vec<HeaderRow>,
    pub tip: Option<Vec<u8>>,
    pub sp_tip: Option<Vec<u8>>,
    pub tweaks: Vec<Vec<u8>>,
    pub flush_count: u64,
}

impl Store {
    /// Store invariant: families sorted in (prefix, height) order; header
    /// rows keyed consecutively from height 1; bookmarks are 32-byte hashes.
    pub open spec fn wf(&self) -> bool {
        &&& rows_sorted(self.funding@)
        &&& rows_sorted(self.spending@)
        &&& rows_sorted(self.txid@)
        &&& forall|i: int|
            0 <= i < self.headers@.len() ==> (#[trigger] self.headers@[i]).height == i + 1
                && self.headers@[i].wf()
        &&& self.headers@.len() < 0xffff_fffe
        &&& (self.tip matches Some(t) ==> t@.len() == 32)
        &&& (self.sp_tip matches Some(t) ==> t@.len() == 32)
    }

    /// A fresh, empty store.
    pub fn new() -> (r: Store)
        ensures
            r.wf(),
            r.funding@ == Seq::<HashPrefixRow>::empty(),
            r.spending@ == Seq::<HashPrefixRow>::empty(),
            r.txid@ == Seq::<HashPrefixRow>::empty(),
            r.headers@ == Seq::<HeaderRow>::empty(),
            r.tip is None,
            r.sp_tip is None,
            r.tweaks@ == Seq::<Vec<u8>>::empty(),
            r.flush_count == 0,
    {
        Store {
            funding: Vec::new(),
            spending: Vec::new(),
            txid: Vec::new(),
            headers: Vec::new(),
            tip: None,
            sp_tip: None,
            tweaks: Vec::new(),
            flush_count: 0,
        }
    }

    /// The standard pass's tip bookmark, if one was ever persisted.
    pub fn get_tip(&self) -> (r: Option<Vec<u8>>)
        ensures
            (r matches Some(t) ==> self.tip matches Some(s) && t@ == s@),
            (r is None <==> self.tip is None),
    {
        match &self.tip {
            Some(t) => Some(copy_bytes(t)),
            None => None,
        }
    }

    /// The silent-payments pass's bookmark, if one was ever persisted.
    pub fn last_sp(&self) -> (r: Option<Vec<u8>>)
        ensures
            (r matches Some(t) ==> self.sp_tip matches Some(s) && t@ == s@),
            (r is None <==> self.sp_tip is None),
    {
        match &self.sp_tip {
            Some(t) => Some(copy_bytes(t)),
            None => None,
        }
    }

    /// All header rows, in height order.
    pub fn read_headers(&self) -> (r: Vec<HeaderRow>)
        ensures
            r@.len() == self.headers@.len(),
            forall|i: int| 0 <= i < r@.len() ==> header_eqv(#[trigger] r@[i], self.headers@[i]),
    {
        let n = self.headers.len();
        let mut out: Vec<HeaderRow> = Vec::new();
        let mut i: usize = 0;
        while i < n
            invariant
                n == self.headers@.len(),
                0 <= i <= n,
                out@.len() == i,
                forall|j: int| 0 <= j < i ==> header_eqv(#[trigger] out@[j], self.headers@[j]),
            decreases n - i,
        {
            out.push(clone_header(self.headers.get(i).unwrap()));
            i += 1;
        }
        out
    }

    /// Rows of the funding family sharing `prefix`, in key order.
    pub fn iter_funding(&self, prefix: u64) -> (r: Vec<HashPrefixRow>)
        ensures
            r@ == prefix_filter(self.funding@, prefix),
    {
        filter_rows(&self.funding, prefix)
    }

    /// Rows of the spending family sharing `prefix`, in key order.
    pub fn iter_spending(&self, prefix: u64) -> (r: Vec<HashPrefixRow>)
        ensures
            r@ == prefix_filter(self.spending@, prefix),
    {
        filter_rows(&self.spending, prefix)
    }

    /// Rows of the by-txid family sharing `prefix`, in key order.
    pub fn iter_txid(&self, prefix: u64) -> (r: Vec<HashPrefixRow>)
        ensures
            r@ == prefix_filter(self.txid@, prefix),
    {
        filter_rows(&self.txid, prefix)
    }

    /// Trigger a full compaction.
    pub fn flush(&mut self)
        requires
            old(self).flush_count < u64::MAX,
        ensures
            final(self).flush_count == old(self).flush_count + 1,
            final(self).funding == old(self).funding,
            final(self).spending == old(self).spending,
            final(self).txid == old(self).txid,
            final(self).headers == old(self).headers,
            final(self).tip == old(self).tip,
            final(self).sp_tip == old(self).sp_tip,
            final(self).tweaks == old(self).tweaks,
    {
        self.flush_count = self.flush_count + 1;
    }

    /// Observable size properties, one per row family.
    pub fn get_properties(&self) -> (r: Vec<(u64, u64)>)
        ensures
            r@.len() == 4,
            r@[0].1 == self.funding@.len(),
            r@[1].1 == self.spending@.len(),
            r@[2].1 == self.txid@.len(),
            r@[3].1 == self.headers@.len(),
    {
        let mut out: Vec<(u64, u64)> = Vec::new();
        out.push((0, self.funding.len() as u64));
        out.push((1, self.spending.len() as u64));
        out.push((2, self.txid.len() as u64));
        out.push((3, self.headers.len() as u64));
        out
    }

    /// Apply one batch atomically: merge each sorted row family, replace or
    /// append the header rows by height, overwrite the tip marker if the
    /// batch carries one, and record the tweak payload (whose leading 32
    /// bytes, the scanned block's hash, become the silent-payments bookmark).
    pub fn write(&mut self, batch: &WriteBatch)
        requires
            old(self).wf(),
            batch.header_rows@.len() > 0 ==> {
                &&& batch.header_rows@[0].height >= 1
                &&& batch.header_rows@[0].height <= old(self).headers@.len() + 1
                &&& forall|k: int|
                    0 <= k < batch.header_rows@.len()
                        ==> (#[trigger] batch.header_rows@[k]).height
                            == batch.header_rows@[0].height + k && batch.header_rows@[k].wf()
                &&& batch.header_rows@[0].height + batch.header_rows@.len() < 0xffff_fffe
            },
            batch.tip_row@.len() == 32 || batch.tip_row@.len() == 0,
            batch.tweak_rows@.len() == 0 || batch.tweak_rows@.len() >= 32,
        ensures
            final(self).wf(),
            final(self).funding@.to_multiset() == old(self).funding@.to_multiset().add(
                batch.funding_rows@.to_multiset(),
            ),
            final(self).spending@.to_multiset() == old(self).spending@.to_multiset().add(
                batch.spending_rows@.to_multiset(),
            ),
            final(self).txid@.to_multiset() == old(self).txid@.to_multiset().add(
                batch.txid_rows@.to_multiset(),
            ),
            batch.funding_rows@.len() == 0 ==> final(self).funding == old(self).funding,
            batch.spending_rows@.len() == 0 ==> final(self).spending == old(self).spending,
            batch.txid_rows@.len() == 0 ==> final(self).txid == old(self).txid,
            batch.header_rows@.len() == 0 ==> final(self).headers == old(self).headers,
            batch.header_rows@.len() > 0 ==> {
                let s = batch.header_rows@[0].height as int;
                &&& final(self).headers@.len() == s - 1 + batch.header_rows@.len()
                &&& final(self).headers@.take(s - 1) == old(self).headers@.take(s - 1)
                &&& forall|i: int|
                    s - 1 <= i < final(self).headers@.len() ==> header_eqv(
                        #[trigger] final(self).headers@[i],
                        batch.header_rows@[i - (s - 1)],
                    )
            },
            batch.tip_row@.len() == 32 ==> (final(self).tip matches Some(t) && t@
                == batch.tip_row@),
            batch.tip_row@.len() == 0 ==> final(self).tip == old(self).tip,
            batch.tweak_rows@.len() >= 32 ==> {
                &&& final(self).tweaks@.len() == old(self).tweaks@.len() + 1
                &&& final(self).tweaks@.take(old(self).tweaks@.len() as int) == old(self).tweaks@
                &&& final(self).tweaks@.last()@ == batch.tweak_rows@
                &&& (final(self).sp_tip matches Some(t) && t@ == batch.tweak_rows@.take(32))
            },
            batch.tweak_rows@.len() == 0 ==> final(self).tweaks == old(self).tweaks
                && final(self).sp_tip == old(self).sp_tip,
            final(self).flush_count == old(self).flush_count,
    {
        merge_rows(&mut self.funding, &batch.funding_rows);
        proof {
            assert(rows_sorted(self.funding@));
            assert(self.funding@.to_multiset() == old(self).funding@.to_multiset().add(
                batch.funding_rows@.to_multiset(),
            ));
        }
        merge_rows(&mut self.spending, &batch.spending_rows);
        merge_rows(&mut self.txid, &batch.txid_rows);
        if batch.header_rows.len() > 0 {
            let s = batch.header_rows.get(0).unwrap().height as usize;
            self.headers.truncate(s - 1);
            let n = batch.header_rows.len();
            let ghost base = self.headers@;
            let ghost mid = *self;
            let mut k: usize = 0;
            while k < n
                invariant
                    n == batch.header_rows@.len(),
                    0 <= k <= n,
                    self.funding == mid.funding,
                    self.spending == mid.spending,
                    self.txid == mid.txid,
                    self.tip == mid.tip,
                    self.sp_tip == mid.sp_tip,
                    self.tweaks == mid.tweaks,
                    self.flush_count == mid.flush_count,
                    self.headers@.len() == base.len() + k,
                    self.headers@.take(base.len() as int) == base,
                    forall|j: int|
                        base.len() <= j < self.headers@.len() ==> header_eqv(
                            #[trigger] self.headers@[j],
                            batch.header_rows@[j - base.len()],
                        ),
                decreases n - k,
            {
                let ghost prev = self.headers@;
                self.headers.push(clone_header(batch.header_rows.get(k).unwrap()));
                proof {
                    assert(self.headers@.take(base.len() as int) =~= prev.take(
                        base.len() as int,
                    ));
                }
                k += 1;
            }
            proof {
                assert(base.len() == s - 1);
                assert(self.headers@.take(s - 1 as int) =~= old(self).headers@.take(
                    s - 1 as int,
                ));
            }
        }
        proof {
            assert forall|i: int| 0 <= i < self.headers@.len() implies (
            #[trigger] self.headers@[i]).height == i + 1 && self.headers@[i].wf() by {
                if batch.header_rows@.len() > 0 {
                    let s = batch.header_rows@[0].height as int;
                    if i < s - 1 {
                        assert(self.headers@.take(s - 1)[i] == self.headers@[i]);
                        assert(old(self).headers@[i].height == i + 1);
                    } else {
                        assert(header_eqv(self.headers@[i], batch.header_rows@[i - (s - 1)]));
                        assert(batch.header_rows@[i - (s - 1)].height
                            == batch.header_rows@[0].height + (i - (s - 1)));
                    }
                } else {
                    assert(old(self).headers@[i].height == i + 1);
                }
            }
        }
        if batch.tip_row.len() == 32 {
            self.tip = Some(copy_bytes(&batch.tip_row));
        }
        if batch.tweak_rows.len() >= 32 {
            let mut mark: Vec<u8> = Vec::new();
            let mut k: usize = 0;
            while k < 32
                invariant
                    batch.tweak_rows@.len() >= 32,
                    0 <= k <= 32,
                    mark@ == batch.tweak_rows@.take(k as int),
                decreases 32 - k,
            {
                mark.push(*batch.tweak_rows.get(k).unwrap());
                proof {
                    assert(batch.tweak_rows@.take(k + 1 as int) =~= batch.tweak_rows@.take(
                        k as int,
                    ).push(batch.tweak_rows@[k as int]));
                }
                k += 1;
            }
            self.sp_tip = Some(mark);
            let ghost before = self.tweaks@;
            self.tweaks.push(copy_bytes(&batch.tweak_rows));
            proof {
                assert(self.tweaks@.take(before.len() as int) =~= before);
            }
        }
    }
}

/// Rows of `v` whose prefix is `prefix`, in stored order.
fn filter_rows(v: &Vec<HashPrefixRow>, prefix: u64) -> (r: Vec<HashPrefixRow>)
    ensures
        r@ == prefix_filter(v@, prefix),
{
    broadcast use vstd::seq_lib::group_seq_properties;

    let n = v.len();
    let mut out: Vec<HashPrefixRow> = Vec::new();
    let mut i: usize = 0;
    while i < n
        invariant
            n == v@.len(),
            0 <= i <= n,
            out@ == prefix_filter(v@.take(i as int), prefix),
        decreases n - i,
    {
        let row = *v.get(i).unwrap();
        proof {
            assert(v@.take(i + 1 as int).drop_last() =~= v@.take(i as int));
            v@.take(i as int).lemma_filter_push(
                v@[i as int],
                |r: HashPrefixRow| r.prefix == prefix,
            );
            assert(v@.take(i + 1 as int) =~= v@.take(i as int).push(v@[i as int]));
        }
        if row.prefix == prefix {
            out.push(row);
        }
        i += 1;
    }
    proof {
        assert(v@.take(n as int) =~= v@);
    }
    out
}

/// Merge a batch's rows into a sorted family, keeping it sorted; the family
/// afterwards holds exactly the old rows plus the batch's rows.
fn merge_rows(family: &mut Vec<HashPrefixRow>, rows: &Vec<HashPrefixRow>)
    requires
        rows_sorted(old(family)@),
    ensures
        rows_sorted(final(family)@),
        final(family)@.to_multiset() == old(family)@.to_multiset().add(rows@.to_multiset()),
        rows@.len() == 0 ==> *final(family) == *old(family),
{
    broadcast use vstd::multiset::group_multiset_axioms;

    proof {
        assert(rows@.take(0) =~= Seq::<HashPrefixRow>::empty());
        rows@.take(0).to_multiset_ensures();
        assert forall|x: HashPrefixRow|
            old(family)@.to_multiset().add(rows@.take(0).to_multiset()).count(x) == old(
                family,
            )@.to_multiset().count(x) by {
            assert(!rows@.take(0).contains(x));
            assert(rows@.take(0).to_multiset().count(x) == 0);
        }
        assert(old(family)@.to_multiset().add(rows@.take(0).to_multiset()) =~= old(
            family,
        )@.to_multiset());
    }
    let n = rows.len();
    let mut i: usize = 0;
    while i < n
        invariant
            n == rows@.len(),
            0 <= i <= n,
            rows_sorted(family@),
            i == 0 ==> *family == *old(family),
            family@.to_multiset() == old(family)@.to_multiset().add(
                rows@.take(i as int).to_multiset(),
            ),
        decreases n - i,
    {
        let x = *rows.get(i).unwrap();
        proof {
            assert(rows@.take(i + 1 as int) =~= rows@.take(i as int).push(rows@[i as int]));
            rows@.take(i as int).to_multiset_ensures();
            assert(rows@.take(i as int).push(rows@[i as int]).to_multiset() =~= rows@.take(
                i as int,
            ).to_multiset().insert(rows@[i as int]));
            assert(old(family)@.to_multiset().add(
                rows@.take(i as int).to_multiset().insert(rows@[i as int]),
            ) =~= old(family)@.to_multiset().add(rows@.take(i as int).to_multiset()).insert(
                rows@[i as int],
            ));
        }
        insert_sorted(family, x);
        i += 1;
    }
    proof {
        assert(rows@.take(n as int) =~= rows@);
    }
}

} // verus!
