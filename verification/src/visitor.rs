//! The standard block visitor: one pass over a block's structure that emits
//! a txid row per transaction, a funding row per spendable output, a spending
//! row per non-coinbase input, and one header record, all at the block's
//! height, into the chunk's write batch.
use vstd::prelude::*;
use crate::batch::WriteBatch;
use crate::rows::{
    prefix_of, spending_prefix_of, HashPrefixRow, HeaderRow, ScriptHashRow, SpendingPrefixRow,
    TxidRow,
};
use crate::types::{copy_bytes, Block, Transaction, TxInput, TxOutput};
use crate::wrappers::{
    provably_unspendable, script_hash, script_hash_of, script_is_provably_unspendable,
};

verus! {

/// The by-txid row a transaction contributes at height `h`.
pub open spec fn txid_row_of(t: Transaction, h: u32) -> HashPrefixRow {
    HashPrefixRow { prefix: prefix_of(t.txid@), height: h }
}

/// The funding row an output contributes at height `h`.
pub open spec fn funding_row_of(o: TxOutput, h: u32) -> HashPrefixRow {
    HashPrefixRow { prefix: prefix_of(script_hash_of(o.script_pubkey@)), height: h }
}

/// The spending row an input contributes at height `h`.
pub open spec fn spending_row_of(i: TxInput, h: u32) -> HashPrefixRow {
    HashPrefixRow { prefix: spending_prefix_of(i.prev_txid@, i.prev_vout), height: h }
}

/// By-txid rows of a block's transactions, in transaction order.
pub open spec fn txid_rows_of(txs: Seq<Transaction>, h: u32) -> Seq<HashPrefixRow>
    decreases txs.len(),
{
    if txs.len() == 0 {
        Seq::empty()
    } else {
        txid_rows_of(txs.drop_last(), h).push(txid_row_of(txs.last(), h))
    }
}

/// Funding rows of one transaction's outputs: provably unspendable outputs
/// are skipped (no one can ever query for them).
pub open spec fn funding_rows_of_outputs(outs: Seq<TxOutput>, h: u32) -> Seq<HashPrefixRow>
    decreases outs.len(),
{
    if outs.len() == 0 {
        Seq::empty()
    } else {
        funding_rows_of_outputs(outs.drop_last(), h) + (if !provably_unspendable(
            outs.last().script_pubkey@,
        ) {
            seq![funding_row_of(outs.last(), h)]
        } else {
            Seq::empty()
        })
    }
}

/// Funding rows of a block's transactions, in order.
pub open spec fn funding_rows_of(txs: Seq<Transaction>, h: u32) -> Seq<HashPrefixRow>
    decreases txs.len(),
{
    if txs.len() == 0 {
        Seq::empty()
    } else {
        funding_rows_of(txs.drop_last(), h) + funding_rows_of_outputs(txs.last().outputs@, h)
    }
}

/// Spending rows of one transaction's inputs: the null/coinbase previous
/// output is skipped.
pub open spec fn spending_rows_of_inputs(ins: Seq<TxInput>, h: u32) -> Seq<HashPrefixRow>
    decreases ins.len(),
{
    if ins.len() == 0 {
        Seq::empty()
    } else {
        spending_rows_of_inputs(ins.drop_last(), h) + (if !ins.last().prevout_null() {
            seq![spending_row_of(ins.last(), h)]
        } else {
            Seq::empty()
        })
    }
}

/// Spending rows of a block's transactions, in order.
pub open spec fn spending_rows_of(txs: Seq<Transaction>, h: u32) -> Seq<HashPrefixRow>
    decreases txs.len(),
{
    if txs.len() == 0 {
        Seq::empty()
    } else {
        spending_rows_of(txs.drop_last(), h) + spending_rows_of_inputs(txs.last().inputs@, h)
    }
}

/// Visit one raw block at its externally supplied height: append its rows to
/// the batch and overwrite the batch's tip marker with this block's hash (the
/// orchestrator relies on this being the last block visited in a chunk).
pub fn index_single_block(block_hash: &Vec<u8>, block: &Block, height: u32, batch: &mut WriteBatch)
    requires
        block.wf(),
        block_hash@.len() == 32,
    ensures
        final(batch).txid_rows@ == old(batch).txid_rows@ + txid_rows_of(block.txs@, height),
        final(batch).funding_rows@ == old(batch).funding_rows@ + funding_rows_of(
            block.txs@,
            height,
        ),
        final(batch).spending_rows@ == old(batch).spending_rows@ + spending_rows_of(
            block.txs@,
            height,
        ),
        final(batch).header_rows@.len() == old(batch).header_rows@.len() + 1,
        final(batch).header_rows@.take(old(batch).header_rows@.len() as int) == old(
            batch,
        ).header_rows@,
        final(batch).header_rows@.last().height == height,
        final(batch).header_rows@.last().hash@ == block_hash@,
        final(batch).header_rows@.last().header@ == block.header@,
        final(batch).tip_row@ == block_hash@,
        final(batch).tweak_rows == old(batch).tweak_rows,
{
    let n = block.txs.len();
    let mut i: usize = 0;
    while i < n
        invariant
            block.wf(),
            block_hash@.len() == 32,
            n == block.txs@.len(),
            0 <= i <= n,
            batch.txid_rows@ == old(batch).txid_rows@ + txid_rows_of(
                block.txs@.take(i as int),
                height,
            ),
            batch.funding_rows@ == old(batch).funding_rows@ + funding_rows_of(
                block.txs@.take(i as int),
                height,
            ),
            batch.spending_rows@ == old(batch).spending_rows@ + spending_rows_of(
                block.txs@.take(i as int),
                height,
            ),
            batch.header_rows == old(batch).header_rows,
            batch.tip_row == old(batch).tip_row,
            batch.tweak_rows == old(batch).tweak_rows,
        decreases n - i,
    {
        let tx = block.txs.get(i).unwrap();
        assert(tx.wf());
        batch.txid_rows.push(TxidRow::row(&tx.txid, height));
        proof {
            assert(block.txs@.take(i + 1 as int).drop_last() =~= block.txs@.take(i as int));
            assert(batch.txid_rows@ == old(batch).txid_rows@ + txid_rows_of(
                block.txs@.take(i + 1 as int),
                height,
            ));
        }
        let m = tx.outputs.len();
        let ghost prev_txid_rows = batch.txid_rows@;
        let ghost prev_spending_rows = batch.spending_rows@;
        let mut j: usize = 0;
        while j < m
            invariant
                m == tx.outputs@.len(),
                0 <= j <= m,
                batch.funding_rows@ == old(batch).funding_rows@ + funding_rows_of(
                    block.txs@.take(i as int),
                    height,
                ) + funding_rows_of_outputs(tx.outputs@.take(j as int), height),
                batch.txid_rows@ == prev_txid_rows,
                batch.spending_rows@ == prev_spending_rows,
                batch.header_rows == old(batch).header_rows,
                batch.tip_row == old(batch).tip_row,
                batch.tweak_rows == old(batch).tweak_rows,
            decreases m - j,
        {
            let out = tx.outputs.get(j).unwrap();
            if !script_is_provably_unspendable(&out.script_pubkey) {
                let sh = script_hash(&out.script_pubkey);
                batch.funding_rows.push(ScriptHashRow::row(&sh, height));
            }
            proof {
                assert(tx.outputs@.take(j + 1 as int).drop_last() =~= tx.outputs@.take(
                    j as int,
                ));
                assert(tx.outputs@.take(j + 1 as int).last() == tx.outputs@[j as int]);
                assert(batch.funding_rows@ =~= old(batch).funding_rows@ + funding_rows_of(
                    block.txs@.take(i as int),
                    height,
                ) + funding_rows_of_outputs(tx.outputs@.take(j + 1 as int), height));
            }
            j += 1;
        }
        proof {
            assert(tx.outputs@.take(m as int) =~= tx.outputs@);
            assert(block.txs@.take(i + 1 as int).last() == block.txs@[i as int]);
        }
        let k_total = tx.inputs.len();
        let ghost prev_txid_rows2 = batch.txid_rows@;
        let ghost prev_funding_rows = batch.funding_rows@;
        let mut k: usize = 0;
        while k < k_total
            invariant
                tx.wf(),
                k_total == tx.inputs@.len(),
                0 <= k <= k_total,
                batch.spending_rows@ == old(batch).spending_rows@ + spending_rows_of(
                    block.txs@.take(i as int),
                    height,
                ) + spending_rows_of_inputs(tx.inputs@.take(k as int), height),
                batch.txid_rows@ == prev_txid_rows2,
                batch.funding_rows@ == prev_funding_rows,
                batch.header_rows == old(batch).header_rows,
                batch.tip_row == old(batch).tip_row,
                batch.tweak_rows == old(batch).tweak_rows,
            decreases k_total - k,
        {
            let inp = tx.inputs.get(k).unwrap();
            assert(inp.wf());
            if !inp.is_null_prevout() {
                batch.spending_rows.push(SpendingPrefixRow::row(
                    &inp.prev_txid,
                    inp.prev_vout,
                    height,
                ));
            }
            proof {
                assert(tx.inputs@.take(k + 1 as int).drop_last() =~= tx.inputs@.take(k as int));
                assert(tx.inputs@.take(k + 1 as int).last() == tx.inputs@[k as int]);
                assert(batch.spending_rows@ =~= old(batch).spending_rows@ + spending_rows_of(
                    block.txs@.take(i as int),
                    height,
                ) + spending_rows_of_inputs(tx.inputs@.take(k + 1 as int), height));
            }
            k += 1;
        }
        proof {
            assert(tx.inputs@.take(k_total as int) =~= tx.inputs@);
            assert(block.txs@.take(i + 1 as int).drop_last() =~= block.txs@.take(i as int));
            assert(block.txs@.take(i + 1 as int).last() == block.txs@[i as int]);
            assert(batch.funding_rows@ =~= old(batch).funding_rows@ + funding_rows_of(
                block.txs@.take(i + 1 as int),
                height,
            ));
            assert(batch.spending_rows@ =~= old(batch).spending_rows@ + spending_rows_of(
                block.txs@.take(i + 1 as int),
                height,
            ));
        }
        i += 1;
    }
    proof {
        assert(block.txs@.take(n as int) =~= block.txs@);
    }
    let ghost before_header = batch.header_rows@;
    batch.header_rows.push(
        HeaderRow { height, hash: copy_bytes(block_hash), header: copy_bytes(&block.header) },
    );
    proof {
        assert(batch.header_rows@.take(before_header.len() as int) =~= before_header);
    }
    batch.tip_row = copy_bytes(block_hash);
}

} // verus!
