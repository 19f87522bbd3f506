//! The write batch: an accumulator of pending rows across all families for
//! one sync chunk, plus the tip marker and the tweak payload. Before
//! persistence each row family is sorted into ascending (prefix, height)
//! order; header rows and the tweak payload keep their build order.
use vstd::prelude::*;
use vstd::seq_lib::lemma_multiset_commutative;
use crate::rows::{row_le, row_le_exec, rows_sorted, HashPrefixRow, HeaderRow};

verus! {

/// Inserting anywhere into a sequence adds exactly that element to its
/// multiset.
pub proof fn lemma_seq_insert_to_multiset(s: Seq<HashPrefixRow>, pos: int, x: HashPrefixRow)
    requires
        0 <= pos <= s.len(),
    ensures
        s.insert(pos, x).to_multiset() == s.to_multiset().insert(x),
{
    broadcast use vstd::seq_lib::group_to_multiset_ensures;

    let a = s.subrange(0, pos);
    let b = s.subrange(pos, s.len() as int);
    lemma_multiset_commutative(a.push(x), b);
    lemma_multiset_commutative(a, b);
    assert(s =~= a + b);
    assert(a.push(x).to_multiset() =~= a.to_multiset().insert(x));
    assert(s.insert(pos, x).to_multiset() =~= s.to_multiset().insert(x));
}

/// Insert a row into an already sorted vector, keeping it sorted.
pub fn insert_sorted(out: &mut Vec<HashPrefixRow>, x: HashPrefixRow)
    requires
        rows_sorted(old(out)@),
    ensures
        rows_sorted(final(out)@),
        final(out)@.to_multiset() == old(out)@.to_multiset().insert(x),
        final(out)@.len() == old(out)@.len() + 1,
{
    let n = out.len();
    let mut pos: usize = 0;
    while pos < n && row_le_exec(out.get(pos).unwrap(), &x)
        invariant
            n == out@.len(),
            out@ == old(out)@,
            0 <= pos <= n,
            forall|k: int| 0 <= k < pos ==> row_le(out@[k], x),
        decreases n - pos,
    {
        pos += 1;
    }
    proof {
        out@.insert_ensures(pos as int, x);
        lemma_seq_insert_to_multiset(out@, pos as int, x);
    }
    let ghost pre = out@;
    out.insert(pos, x);
    proof {
        pre.insert_ensures(pos as int, x);
        assert forall|i: int, j: int| 0 <= i <= j < out@.len() implies row_le(
            out@[i],
            out@[j],
        ) by {
            if i == j {
            } else if j == pos {
                assert(out@[i] == pre[i]);
                assert(row_le(pre[i], x));
            } else if j < pos {
                assert(row_le(pre[i], pre[j]));
            } else {
                assert(out@[j] == pre[j - 1]);
                if i == pos {
                    assert(!row_le(pre[pos as int], x));
                    assert(row_le(x, pre[pos as int]));
                    assert(row_le(pre[pos as int], pre[j - 1]));
                } else if i < pos {
                    assert(row_le(pre[i], pre[j - 1]));
                } else {
                    assert(out@[i] == pre[i - 1]);
                    assert(row_le(pre[i - 1], pre[j - 1]));
                }
            }
        }
    }
}

/// Sort rows into ascending (prefix, height) order; the result holds exactly
/// the rows that went in.
pub fn sort_rows(v: &mut Vec<HashPrefixRow>)
    ensures
        rows_sorted(final(v)@),
        final(v)@.to_multiset() == old(v)@.to_multiset(),
        final(v)@.len() == old(v)@.len(),
{
    broadcast use vstd::seq_lib::group_to_multiset_ensures;

    let n = v.len();
    let mut out: Vec<HashPrefixRow> = Vec::new();
    let mut i: usize = 0;
    while i < n
        invariant
            n == v@.len(),
            v@ == old(v)@,
            0 <= i <= n,
            rows_sorted(out@),
            out@.to_multiset() == v@.take(i as int).to_multiset(),
            out@.len() == i,
        decreases n - i,
    {
        let x = *v.get(i).unwrap();
        proof {
            assert(v@.take(i + 1 as int) =~= v@.take(i as int).push(v@[i as int]));
            v@.take(i as int).to_multiset_ensures();
            assert(v@.take(i as int).push(v@[i as int]).to_multiset() =~= v@.take(
                i as int,
            ).to_multiset().insert(v@[i as int]));
        }
        insert_sorted(&mut out, x);
        i += 1;
    }
    proof {
        assert(v@.take(n as int) =~= v@);
    }
    *v = out;
}

/// Pending rows for one chunk. Ephemeral: filled by the block visitors,
/// sorted, persisted once, then discarded.
pub struct WriteBatch {
    pub funding_rows: Vec<HashPrefixRow>,
    pub spending_rows: Vec<HashPrefixRow>,
    pub txid_rows: Vec<HashPrefixRow>,
    pub header_rows: Vec<HeaderRow>,
    pub tip_row: Vec<u8>,
    pub tweak_rows: Vec<u8>,
}

impl WriteBatch {
    /// Sorted-family condition persisted batches must meet.
    pub open spec fn families_sorted(&self) -> bool {
        &&& rows_sorted(self.funding_rows@)
        &&& rows_sorted(self.spending_rows@)
        &&& rows_sorted(self.txid_rows@)
    }

    /// Sort every row family in place; header rows (already in height order)
    /// and the tweak payload (block-append order) are not reordered.
    pub fn sort(&mut self)
        ensures
            final(self).families_sorted(),
            final(self).funding_rows@.to_multiset() == old(self).funding_rows@.to_multiset(),
            final(self).spending_rows@.to_multiset() == old(self).spending_rows@.to_multiset(),
            final(self).txid_rows@.to_multiset() == old(self).txid_rows@.to_multiset(),
            final(self).funding_rows@.len() == old(self).funding_rows@.len(),
            final(self).spending_rows@.len() == old(self).spending_rows@.len(),
            final(self).txid_rows@.len() == old(self).txid_rows@.len(),
            final(self).header_rows == old(self).header_rows,
            final(self).tip_row == old(self).tip_row,
            final(self).tweak_rows == old(self).tweak_rows,
    {
        sort_rows(&mut self.funding_rows);
        sort_rows(&mut self.spending_rows);
        sort_rows(&mut self.txid_rows);
    }
}

impl Default for WriteBatch {
    /// An empty batch.
    fn default() -> (r: Self)
        ensures
            r.funding_rows@ == Seq::<HashPrefixRow>::empty(),
            r.spending_rows@ == Seq::<HashPrefixRow>::empty(),
            r.txid_rows@ == Seq::<HashPrefixRow>::empty(),
            r.header_rows@ == Seq::<HeaderRow>::empty(),
            r.tip_row@ == Seq::<u8>::empty(),
            r.tweak_rows@ == Seq::<u8>::empty(),
    {
        WriteBatch {
            funding_rows: Vec::new(),
            spending_rows: Vec::new(),
            txid_rows: Vec::new(),
            header_rows: Vec::new(),
            tip_row: Vec::new(),
            tweak_rows: Vec::new(),
        }
    }
}

/// Total persisted size, in bytes, of a family's rows.
pub fn db_rows_size(rows: &Vec<HashPrefixRow>) -> (r: usize)
    requires
        rows@.len() * 12 <= usize::MAX,
    ensures
        r == rows@.len() * 12,
{
    rows.len() * 12
}

} // verus!
