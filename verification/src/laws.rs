//! The library's laws: indexing a block makes it findable by each of its
//! keys; a sorted batch is a function of the rows alone (so re-indexing the
//! same chunk persists identical bytes); any chunking of a height range
//! yields the same rows as the whole range; and a transaction without an
//! unspent taproot output contributes nothing to — and demands nothing of —
//! the silent-payments scan.
use vstd::prelude::*;
use vstd::relations::{sorted_by, total_ordering};
use vstd::seq_lib::lemma_sorted_unique;
use crate::chain::{hash_at, Chain};
use crate::daemon::Daemon;
use crate::index::{
    lemma_range_split, query_result, range_funding_rows, range_spending_rows, range_txid_rows,
    resolve_heights,
};
use crate::rows::{prefix_of, row_le, rows_sorted, spending_prefix_of, HashPrefixRow};
use crate::sp::{is_candidate, scan_ok, tx_contribution};
use crate::store::{prefix_filter, Store};
use crate::types::{Block, Transaction, TxInput, TxOutput};
use crate::visitor::{
    funding_row_of, funding_rows_of, funding_rows_of_outputs, spending_row_of, spending_rows_of,
    spending_rows_of_inputs, txid_row_of, txid_rows_of,
};
use crate::wrappers::{provably_unspendable, script_hash_of};

verus! {

proof fn lemma_outputs_row_contains(outs: Seq<TxOutput>, h: u32, j: int)
    requires
        0 <= j < outs.len(),
        !provably_unspendable(outs[j].script_pubkey@),
    ensures
        funding_rows_of_outputs(outs, h).contains(funding_row_of(outs[j], h)),
    decreases outs.len(),
{
    let row = funding_row_of(outs[j], h);
    let a = funding_rows_of_outputs(outs.drop_last(), h);
    if j == outs.len() - 1 {
        assert(funding_rows_of_outputs(outs, h)[a.len() as int] == row);
        assert(funding_rows_of_outputs(outs, h).contains(row));
    } else {
        lemma_outputs_row_contains(outs.drop_last(), h, j);
        let w = choose|w: int| 0 <= w < a.len() && a[w] == row;
        assert(funding_rows_of_outputs(outs, h)[w] == row);
        assert(funding_rows_of_outputs(outs, h).contains(row));
    }
}

proof fn lemma_funding_rows_contains(txs: Seq<Transaction>, h: u32, i: int, j: int)
    requires
        0 <= i < txs.len(),
        0 <= j < txs[i].outputs@.len(),
        !provably_unspendable(txs[i].outputs@[j].script_pubkey@),
    ensures
        funding_rows_of(txs, h).contains(funding_row_of(txs[i].outputs@[j], h)),
    decreases txs.len(),
{
    let row = funding_row_of(txs[i].outputs@[j], h);
    let a = funding_rows_of(txs.drop_last(), h);
    if i == txs.len() - 1 {
        lemma_outputs_row_contains(txs[i].outputs@, h, j);
        let b = funding_rows_of_outputs(txs[i].outputs@, h);
        let w = choose|w: int| 0 <= w < b.len() && b[w] == row;
        assert(funding_rows_of(txs, h)[a.len() + w] == row);
        assert(funding_rows_of(txs, h).contains(row));
    } else {
        lemma_funding_rows_contains(txs.drop_last(), h, i, j);
        let w = choose|w: int| 0 <= w < a.len() && a[w] == row;
        assert(funding_rows_of(txs, h)[w] == row);
        assert(funding_rows_of(txs, h).contains(row));
    }
}

proof fn lemma_txid_rows_contains(txs: Seq<Transaction>, h: u32, i: int)
    requires
        0 <= i < txs.len(),
    ensures
        txid_rows_of(txs, h).contains(txid_row_of(txs[i], h)),
    decreases txs.len(),
{
    let row = txid_row_of(txs[i], h);
    let a = txid_rows_of(txs.drop_last(), h);
    if i == txs.len() - 1 {
        assert(txid_rows_of(txs, h)[a.len() as int] == row);
        assert(txid_rows_of(txs, h).contains(row));
    } else {
        lemma_txid_rows_contains(txs.drop_last(), h, i);
        let w = choose|w: int| 0 <= w < a.len() && a[w] == row;
        assert(txid_rows_of(txs, h)[w] == row);
        assert(txid_rows_of(txs, h).contains(row));
    }
}

proof fn lemma_inputs_row_contains(ins: Seq<TxInput>, h: u32, k: int)
    requires
        0 <= k < ins.len(),
        !ins[k].prevout_null(),
    ensures
        spending_rows_of_inputs(ins, h).contains(spending_row_of(ins[k], h)),
    decreases ins.len(),
{
    let row = spending_row_of(ins[k], h);
    let a = spending_rows_of_inputs(ins.drop_last(), h);
    if k == ins.len() - 1 {
        assert(spending_rows_of_inputs(ins, h)[a.len() as int] == row);
        assert(spending_rows_of_inputs(ins, h).contains(row));
    } else {
        lemma_inputs_row_contains(ins.drop_last(), h, k);
        let w = choose|w: int| 0 <= w < a.len() && a[w] == row;
        assert(spending_rows_of_inputs(ins, h)[w] == row);
        assert(spending_rows_of_inputs(ins, h).contains(row));
    }
}

proof fn lemma_spending_rows_contains(txs: Seq<Transaction>, h: u32, i: int, k: int)
    requires
        0 <= i < txs.len(),
        0 <= k < txs[i].inputs@.len(),
        !txs[i].inputs@[k].prevout_null(),
    ensures
        spending_rows_of(txs, h).contains(spending_row_of(txs[i].inputs@[k], h)),
    decreases txs.len(),
{
    let row = spending_row_of(txs[i].inputs@[k], h);
    let a = spending_rows_of(txs.drop_last(), h);
    if i == txs.len() - 1 {
        lemma_inputs_row_contains(txs[i].inputs@, h, k);
        let b = spending_rows_of_inputs(txs[i].inputs@, h);
        let w = choose|w: int| 0 <= w < b.len() && b[w] == row;
        assert(spending_rows_of(txs, h)[a.len() + w] == row);
        assert(spending_rows_of(txs, h).contains(row));
    } else {
        lemma_spending_rows_contains(txs.drop_last(), h, i, k);
        let w = choose|w: int| 0 <= w < a.len() && a[w] == row;
        assert(spending_rows_of(txs, h)[w] == row);
        assert(spending_rows_of(txs, h).contains(row));
    }
}

proof fn lemma_resolve_contains(c: Chain, rows: Seq<HashPrefixRow>, w: int, bh: Seq<u8>)
    requires
        0 <= w < rows.len(),
        hash_at(c, rows[w].height) == Some(bh),
    ensures
        resolve_heights(c, rows).contains(bh),
    decreases rows.len(),
{
    let a = resolve_heights(c, rows.drop_last());
    if w == rows.len() - 1 {
        assert(resolve_heights(c, rows)[a.len() as int] == bh);
        assert(resolve_heights(c, rows).contains(bh));
    } else {
        lemma_resolve_contains(c, rows.drop_last(), w, bh);
        let x = choose|x: int| 0 <= x < a.len() && a[x] == bh;
        assert(resolve_heights(c, rows)[x] == bh);
        assert(resolve_heights(c, rows).contains(bh));
    }
}

/// A family row that the store holds and whose height the chain resolves is
/// found by the family's prefix query.
proof fn lemma_family_query_contains(
    family: Seq<HashPrefixRow>,
    chain: Chain,
    row: HashPrefixRow,
    bh: Seq<u8>,
)
    requires
        family.contains(row),
        hash_at(chain, row.height) == Some(bh),
    ensures
        query_result(chain, family, row.prefix).contains(bh),
{
    let pred = |r: HashPrefixRow| r.prefix == row.prefix;
    let i = choose|i: int| 0 <= i < family.len() && family[i] == row;
    family.lemma_filter_contains(pred, i);
    let filtered = prefix_filter(family, row.prefix);
    let w = choose|w: int| 0 <= w < filtered.len() && filtered[w] == row;
    lemma_resolve_contains(chain, filtered, w, bh);
}

/// Writing rows into a family keeps every written row findable: the family's
/// multiset grew by the batch, so it holds the row.
proof fn lemma_store_holds_row(
    family0: Seq<HashPrefixRow>,
    family1: Seq<HashPrefixRow>,
    written: Seq<HashPrefixRow>,
    row: HashPrefixRow,
)
    requires
        family1.to_multiset() == family0.to_multiset().add(written.to_multiset()),
        written.contains(row),
    ensures
        family1.contains(row),
{
    broadcast use vstd::multiset::group_multiset_axioms;

    written.to_multiset_ensures();
    family1.to_multiset_ensures();
    assert(written.to_multiset().count(row) > 0);
    assert(family1.to_multiset().count(row) > 0);
}

/// Indexing block `b` at height `h`, then querying by the script hash of any
/// of its not-provably-unspendable outputs, returns a hash that the chain
/// resolves `h` to.
pub proof fn lemma_index_then_query_funding(
    store0: Store,
    store1: Store,
    chain: Chain,
    b: Block,
    height: u32,
    tx_i: int,
    out_j: int,
    bh: Seq<u8>,
)
    requires
        store1.funding@.to_multiset() == store0.funding@.to_multiset().add(
            funding_rows_of(b.txs@, height).to_multiset(),
        ),
        0 <= tx_i < b.txs@.len(),
        0 <= out_j < b.txs@[tx_i].outputs@.len(),
        !provably_unspendable(b.txs@[tx_i].outputs@[out_j].script_pubkey@),
        hash_at(chain, height) == Some(bh),
    ensures
        query_result(
            chain,
            store1.funding@,
            prefix_of(script_hash_of(b.txs@[tx_i].outputs@[out_j].script_pubkey@)),
        ).contains(bh),
{
    let row = funding_row_of(b.txs@[tx_i].outputs@[out_j], height);
    lemma_funding_rows_contains(b.txs@, height, tx_i, out_j);
    lemma_store_holds_row(
        store0.funding@,
        store1.funding@,
        funding_rows_of(b.txs@, height),
        row,
    );
    lemma_family_query_contains(store1.funding@, chain, row, bh);
}

/// Indexing block `b` at height `h`, then querying by any of its
/// transactions' ids, returns a hash that the chain resolves `h` to.
pub proof fn lemma_index_then_query_txid(
    store0: Store,
    store1: Store,
    chain: Chain,
    b: Block,
    height: u32,
    tx_i: int,
    bh: Seq<u8>,
)
    requires
        store1.txid@.to_multiset() == store0.txid@.to_multiset().add(
            txid_rows_of(b.txs@, height).to_multiset(),
        ),
        0 <= tx_i < b.txs@.len(),
        hash_at(chain, height) == Some(bh),
    ensures
        query_result(chain, store1.txid@, prefix_of(b.txs@[tx_i].txid@)).contains(bh),
{
    let row = txid_row_of(b.txs@[tx_i], height);
    lemma_txid_rows_contains(b.txs@, height, tx_i);
    lemma_store_holds_row(store0.txid@, store1.txid@, txid_rows_of(b.txs@, height), row);
    lemma_family_query_contains(store1.txid@, chain, row, bh);
}

/// Indexing block `b` at height `h`, then querying by any non-coinbase
/// input's previous outpoint, returns a hash that the chain resolves `h` to.
pub proof fn lemma_index_then_query_spending(
    store0: Store,
    store1: Store,
    chain: Chain,
    b: Block,
    height: u32,
    tx_i: int,
    in_k: int,
    bh: Seq<u8>,
)
    requires
        store1.spending@.to_multiset() == store0.spending@.to_multiset().add(
            spending_rows_of(b.txs@, height).to_multiset(),
        ),
        0 <= tx_i < b.txs@.len(),
        0 <= in_k < b.txs@[tx_i].inputs@.len(),
        !b.txs@[tx_i].inputs@[in_k].prevout_null(),
        hash_at(chain, height) == Some(bh),
    ensures
        query_result(
            chain,
            store1.spending@,
            spending_prefix_of(
                b.txs@[tx_i].inputs@[in_k].prev_txid@,
                b.txs@[tx_i].inputs@[in_k].prev_vout,
            ),
        ).contains(bh),
{
    let row = spending_row_of(b.txs@[tx_i].inputs@[in_k], height);
    lemma_spending_rows_contains(b.txs@, height, tx_i, in_k);
    lemma_store_holds_row(
        store0.spending@,
        store1.spending@,
        spending_rows_of(b.txs@, height),
        row,
    );
    lemma_family_query_contains(store1.spending@, chain, row, bh);
}

/// Two persisted row families holding the same rows in sorted order are
/// identical: the sorted batch is a function of the rows alone, so indexing
/// the same chunk twice persists byte-identical families.
pub proof fn lemma_sorted_rows_unique(a: Seq<HashPrefixRow>, b: Seq<HashPrefixRow>)
    requires
        rows_sorted(a),
        rows_sorted(b),
        a.to_multiset() == b.to_multiset(),
    ensures
        a == b,
{
    let leq = |x: HashPrefixRow, y: HashPrefixRow| row_le(x, y);
    assert(sorted_by(a, leq));
    assert(sorted_by(b, leq));
    assert(total_ordering(leq));
    lemma_sorted_unique(a, b, leq);
}

/// The rows a chunked scan of `[lo, hi)` produces, with chunks of `k`
/// heights.
pub open spec fn chunked_funding_rows(d: Daemon, lo: int, hi: int, k: int) -> Seq<HashPrefixRow>
    recommends
        k >= 1,
    decreases hi - lo,
{
    if lo >= hi || k < 1 {
        Seq::empty()
    } else {
        let mid = if lo + k < hi {
            lo + k
        } else {
            hi
        };
        range_funding_rows(d, lo, mid) + chunked_funding_rows(d, mid, hi, k)
    }
}

/// The spending rows a chunked scan of `[lo, hi)` produces.
pub open spec fn chunked_spending_rows(d: Daemon, lo: int, hi: int, k: int) -> Seq<
    HashPrefixRow,
>
    recommends
        k >= 1,
    decreases hi - lo,
{
    if lo >= hi || k < 1 {
        Seq::empty()
    } else {
        let mid = if lo + k < hi {
            lo + k
        } else {
            hi
        };
        range_spending_rows(d, lo, mid) + chunked_spending_rows(d, mid, hi, k)
    }
}

/// The by-txid rows a chunked scan of `[lo, hi)` produces.
pub open spec fn chunked_txid_rows(d: Daemon, lo: int, hi: int, k: int) -> Seq<HashPrefixRow>
    recommends
        k >= 1,
    decreases hi - lo,
{
    if lo >= hi || k < 1 {
        Seq::empty()
    } else {
        let mid = if lo + k < hi {
            lo + k
        } else {
            hi
        };
        range_txid_rows(d, lo, mid) + chunked_txid_rows(d, mid, hi, k)
    }
}

/// Chunking invariant: for any chunk size, each family's rows produced
/// across all chunks of a height range equal the rows of the whole range.
pub proof fn lemma_chunked_rows(d: Daemon, lo: int, hi: int, k: int)
    requires
        k >= 1,
    ensures
        chunked_funding_rows(d, lo, hi, k) == range_funding_rows(d, lo, hi),
        chunked_spending_rows(d, lo, hi, k) == range_spending_rows(d, lo, hi),
        chunked_txid_rows(d, lo, hi, k) == range_txid_rows(d, lo, hi),
    decreases hi - lo,
{
    if lo >= hi {
        assert(chunked_funding_rows(d, lo, hi, k) =~= range_funding_rows(d, lo, hi));
        assert(chunked_spending_rows(d, lo, hi, k) =~= range_spending_rows(d, lo, hi));
        assert(chunked_txid_rows(d, lo, hi, k) =~= range_txid_rows(d, lo, hi));
    } else {
        let mid = if lo + k < hi {
            lo + k
        } else {
            hi
        };
        lemma_chunked_rows(d, mid, hi, k);
        lemma_range_split(d, lo, mid, hi);
    }
}

/// Candidacy filter: a transaction without a currently unspent taproot
/// output is never passed to key extraction — it contributes nothing to the
/// tweak payload, and the scan demands nothing of its inputs.
pub proof fn lemma_non_candidate_skipped(
    d: Daemon,
    spending: Seq<HashPrefixRow>,
    t: Transaction,
)
    requires
        !is_candidate(spending, t),
    ensures
        tx_contribution(d, spending, t) == Seq::<u8>::empty(),
        scan_ok(d, spending, seq![t]),
{
    assert forall|i: int|
        0 <= i < seq![t].len() && is_candidate(spending, #[trigger] seq![t][i]) implies
        crate::sp::tx_scan_ok(d, seq![t][i]) by {
        assert(seq![t][i] == t);
        assert(false);
    }
}

} // verus!
