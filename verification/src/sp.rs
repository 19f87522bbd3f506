//! The silent-payments block visitor: for each non-coinbase transaction that
//! has a currently unspent taproot output, resolve every input's previous
//! output through the daemon, recover candidate public keys, and aggregate
//! one tweak point per qualifying transaction into the block's tweak payload.
use vstd::prelude::*;
use crate::batch::WriteBatch;
use crate::daemon::{first_tx_match, Daemon};
use crate::rows::{spending_prefix_of, HashPrefixRow, SpendingPrefixRow};
use crate::store::{prefix_filter, Store};
use crate::types::{append_bytes, copy_bytes, Block, Transaction, TxInput};
use crate::wrappers::{
    calc_tweak, extract_input_pubkey, is_p2tr_spec, pubkey_from_input, script_is_p2tr, tweak_of,
};
use crate::IndexError;

verus! {

/// Output `k` of `t` is a taproot output with no row in the spending index.
pub open spec fn output_unspent_taproot(
    spending: Seq<HashPrefixRow>,
    t: Transaction,
    k: int,
) -> bool {
    &&& is_p2tr_spec(t.outputs@[k].script_pubkey@)
    &&& prefix_filter(spending, spending_prefix_of(t.txid@, k as u32)).len() == 0
}

/// The candidacy test: a non-coinbase transaction qualifies for scanning iff
/// some output is an unspent taproot output.
pub open spec fn is_candidate(spending: Seq<HashPrefixRow>, t: Transaction) -> bool {
    &&& !t.spec_is_coinbase()
    &&& exists|k: int|
        0 <= k < t.outputs@.len() && #[trigger] output_unspent_taproot(spending, t, k)
}

/// The script locking the previous output an input spends, resolved through
/// the daemon's transaction pool; nothing if the pool cannot resolve it.
pub open spec fn resolved_prevout_script(d: Daemon, i: TxInput) -> Option<Seq<u8>> {
    match first_tx_match(d.txs@, i.prev_txid@) {
        None => None,
        Some(t) => if i.prev_vout < d.txs@[t].outputs@.len() {
            Some(d.txs@[t].outputs@[i.prev_vout as int].script_pubkey@)
        } else {
            None
        },
    }
}

/// What classifying one input yields: `None` is a trust violation (an
/// unresolvable previous output, or a classifier error), `Some(None)` an
/// input with no recoverable key, `Some(Some(k))` a candidate key.
pub open spec fn input_classification(d: Daemon, i: TxInput) -> Option<Option<Seq<u8>>> {
    match resolved_prevout_script(d, i) {
        None => None,
        Some(spk) => pubkey_from_input(i.script_sig@, i.witness.deep_view(), spk),
    }
}

/// Every input classifies without a trust violation.
pub open spec fn inputs_classify_ok(d: Daemon, ins: Seq<TxInput>) -> bool {
    forall|k: int| 0 <= k < ins.len() ==> (#[trigger] input_classification(d, ins[k])) is Some
}

/// The candidate keys recovered from a transaction's inputs, in input order.
pub open spec fn tx_pubkeys(d: Daemon, ins: Seq<TxInput>) -> Seq<Seq<u8>>
    decreases ins.len(),
{
    if ins.len() == 0 {
        Seq::empty()
    } else {
        tx_pubkeys(d, ins.drop_last()) + (match input_classification(d, ins.last()) {
            Some(Some(k)) => seq![k],
            _ => Seq::empty(),
        })
    }
}

/// All of a transaction's spent outpoints, in input order.
pub open spec fn tx_outpoints(ins: Seq<TxInput>) -> Seq<(Seq<u8>, u32)>
    decreases ins.len(),
{
    if ins.len() == 0 {
        Seq::empty()
    } else {
        tx_outpoints(ins.drop_last()).push((ins.last().prev_txid@, ins.last().prev_vout))
    }
}

/// A scanned transaction's tweak bytes: one compressed point when keys were
/// recovered, nothing otherwise.
pub open spec fn tx_tweak(d: Daemon, t: Transaction) -> Seq<u8> {
    if tx_pubkeys(d, t.inputs@).len() > 0 {
        match tweak_of(tx_pubkeys(d, t.inputs@), tx_outpoints(t.inputs@)) {
            Some(tw) => tw,
            None => Seq::empty(),
        }
    } else {
        Seq::empty()
    }
}

/// What one transaction adds to the block's tweak payload.
pub open spec fn tx_contribution(
    d: Daemon,
    spending: Seq<HashPrefixRow>,
    t: Transaction,
) -> Seq<u8> {
    if is_candidate(spending, t) {
        tx_tweak(d, t)
    } else {
        Seq::empty()
    }
}

/// The block's tweak payload body: contributions in transaction order.
pub open spec fn block_tweaks(
    d: Daemon,
    spending: Seq<HashPrefixRow>,
    txs: Seq<Transaction>,
) -> Seq<u8>
    decreases txs.len(),
{
    if txs.len() == 0 {
        Seq::empty()
    } else {
        block_tweaks(d, spending, txs.drop_last()) + tx_contribution(d, spending, txs.last())
    }
}

/// One candidate transaction scans without a trust violation.
pub open spec fn tx_scan_ok(d: Daemon, t: Transaction) -> bool {
    &&& inputs_classify_ok(d, t.inputs@)
    &&& (tx_pubkeys(d, t.inputs@).len() > 0 ==> tweak_of(
        tx_pubkeys(d, t.inputs@),
        tx_outpoints(t.inputs@),
    ) is Some)
}

/// Every candidate transaction of the block scans without a trust violation;
/// non-candidates are never passed to key extraction, so they demand nothing.
pub open spec fn scan_ok(d: Daemon, spending: Seq<HashPrefixRow>, txs: Seq<Transaction>) -> bool {
    forall|i: int|
        0 <= i < txs.len() && is_candidate(spending, #[trigger] txs[i]) ==> tx_scan_ok(d, txs[i])
}

/// A candidate transaction that cannot be scanned refutes the whole block.
proof fn lemma_scan_not_ok(
    d: Daemon,
    spending: Seq<HashPrefixRow>,
    txs: Seq<Transaction>,
    i: int,
)
    requires
        0 <= i < txs.len(),
        is_candidate(spending, txs[i]),
        !tx_scan_ok(d, txs[i]),
    ensures
        !scan_ok(d, spending, txs),
{
}

/// Exec candidacy test, against the spending index as it stands.
pub fn is_tx_candidate(store: &Store, tx: &Transaction) -> (r: bool)
    requires
        tx.wf(),
    ensures
        r == is_candidate(store.spending@, *tx),
{
    if tx.is_coinbase() {
        return false;
    }
    let m = tx.outputs.len();
    let mut j: usize = 0;
    while j < m
        invariant
            tx.wf(),
            !tx.spec_is_coinbase(),
            m == tx.outputs@.len(),
            0 <= j <= m,
            forall|q: int| 0 <= q < j ==> !output_unspent_taproot(store.spending@, *tx, q),
        decreases m - j,
    {
        let o = tx.outputs.get(j).unwrap();
        if script_is_p2tr(&o.script_pubkey) {
            let pfx = SpendingPrefixRow::scan_prefix(&tx.txid, j as u32);
            let rows = store.iter_spending(pfx);
            if rows.len() == 0 {
                assert(output_unspent_taproot(store.spending@, *tx, j as int));
                return true;
            }
        }
        j += 1;
    }
    false
}

/// Scan one block: replace the batch's tweak payload with this block's hash
/// followed by one point per qualifying transaction. A transaction with no
/// unspent taproot output never reaches key extraction. Errors are the fatal
/// tier: an unresolvable previous output, a classifier rejection, or a failed
/// tweak aggregation, each naming the block's height.
pub fn scan_single_block_for_silent_payments(
    daemon: &Daemon,
    store: &Store,
    block_hash: &Vec<u8>,
    block: &Block,
    height: u32,
    batch: &mut WriteBatch,
) -> (r: Result<(), IndexError>)
    requires
        daemon.wf(),
        block.wf(),
        block_hash@.len() == 32,
    ensures
        (r matches Ok(()) <==> scan_ok(*daemon, store.spending@, block.txs@)),
        (r matches Ok(()) ==> final(batch).tweak_rows@ == block_hash@ + block_tweaks(
            *daemon,
            store.spending@,
            block.txs@,
        )),
        (r matches Err(e) ==> e.spec_is_fatal() && (e matches IndexError::MissingPrevout { .. }
            || e matches IndexError::ClassifyFailed { .. } || e matches IndexError::TweakFailed {
            ..
        }) && final(batch).tweak_rows == old(batch).tweak_rows),
        final(batch).funding_rows == old(batch).funding_rows,
        final(batch).spending_rows == old(batch).spending_rows,
        final(batch).txid_rows == old(batch).txid_rows,
        final(batch).header_rows == old(batch).header_rows,
        final(batch).tip_row == old(batch).tip_row,
{
    let mut tweaks: Vec<u8> = copy_bytes(block_hash);
    let n = block.txs.len();
    let mut i: usize = 0;
    while i < n
        invariant
            daemon.wf(),
            block.wf(),
            block_hash@.len() == 32,
            n == block.txs@.len(),
            0 <= i <= n,
            tweaks@ == block_hash@ + block_tweaks(
                *daemon,
                store.spending@,
                block.txs@.take(i as int),
            ),
            scan_ok(*daemon, store.spending@, block.txs@.take(i as int)),
            batch == old(batch),
        decreases n - i,
    {
        let tx = block.txs.get(i).unwrap();
        assert(tx.wf());
        if is_tx_candidate(store, tx) {
            let mut pubkeys: Vec<Vec<u8>> = Vec::new();
            let mut outpoints: Vec<(Vec<u8>, u32)> = Vec::new();
            let kn = tx.inputs.len();
            let mut k: usize = 0;
            while k < kn
                invariant
                    daemon.wf(),
                    block.wf(),
                    block_hash@.len() == 32,
                    n == block.txs@.len(),
                    0 <= i < n,
                    *tx == block.txs@[i as int],
                    is_candidate(store.spending@, *tx),
                    scan_ok(*daemon, store.spending@, block.txs@.take(i as int)),
                    tweaks@ == block_hash@ + block_tweaks(
                        *daemon,
                        store.spending@,
                        block.txs@.take(i as int),
                    ),
                    tx.wf(),
                    kn == tx.inputs@.len(),
                    0 <= k <= kn,
                    pubkeys.deep_view() == tx_pubkeys(*daemon, tx.inputs@.take(k as int)),
                    outpoints.deep_view() == tx_outpoints(tx.inputs@.take(k as int)),
                    inputs_classify_ok(*daemon, tx.inputs@.take(k as int)),
                    forall|q: int|
                        0 <= q < outpoints@.len() ==> (#[trigger] outpoints@[q]).0@.len() == 32,
                    batch == old(batch),
                decreases kn - k,
            {
                let inp = tx.inputs.get(k).unwrap();
                assert(inp.wf());
                let ghost pre_out = outpoints.deep_view();
                outpoints.push((copy_bytes(&inp.prev_txid), inp.prev_vout));
                proof {
                    assert(outpoints.deep_view() =~~= pre_out.push(
                        (inp.prev_txid@, inp.prev_vout),
                    ));
                    assert(tx.inputs@.take(k + 1 as int).drop_last() =~= tx.inputs@.take(
                        k as int,
                    ));
                    assert(tx.inputs@.take(k + 1 as int).last() == tx.inputs@[k as int]);
                }
                let found = daemon.get_transaction(&inp.prev_txid);
                match found {
                    None => {
                        proof {
                            assert(input_classification(*daemon, *inp) is None);
                            assert(!tx_scan_ok(*daemon, *tx));
                            lemma_scan_not_ok(
                                *daemon,
                                store.spending@,
                                block.txs@,
                                i as int,
                            );
                        }
                        return Err(IndexError::MissingPrevout { height });
                    },
                    Some(ti) => {
                        let ptx = daemon.txs.get(ti).unwrap();
                        if (inp.prev_vout as usize) >= ptx.outputs.len() {
                            proof {
                                assert(input_classification(*daemon, *inp) is None);
                                assert(!tx_scan_ok(*daemon, *tx));
                                lemma_scan_not_ok(
                                    *daemon,
                                    store.spending@,
                                    block.txs@,
                                    i as int,
                                );
                            }
                            return Err(IndexError::MissingPrevout { height });
                        }
                        let spk = &ptx.outputs.get(inp.prev_vout as usize).unwrap().script_pubkey;
                        assert(resolved_prevout_script(*daemon, *inp) == Some(spk@));
                        let classified = extract_input_pubkey(&inp.script_sig, &inp.witness, spk);
                        match classified {
                            Err(_) => {
                                proof {
                                    assert(input_classification(*daemon, *inp) is None);
                                    assert(!tx_scan_ok(*daemon, *tx));
                                    lemma_scan_not_ok(
                                        *daemon,
                                        store.spending@,
                                        block.txs@,
                                        i as int,
                                    );
                                }
                                return Err(IndexError::ClassifyFailed { height });
                            },
                            Ok(Some(pk)) => {
                                let ghost pre_keys = pubkeys.deep_view();
                                proof {
                                    assert(input_classification(*daemon, *inp) == Some(
                                        Some(pk@),
                                    ));
                                }
                                pubkeys.push(pk);
                                proof {
                                    assert(pubkeys.deep_view() =~~= pre_keys.push(
                                        pubkeys@.last()@,
                                    ));
                                    assert(pubkeys.deep_view() =~~= tx_pubkeys(
                                        *daemon,
                                        tx.inputs@.take(k + 1 as int),
                                    ));
                                }
                            },
                            Ok(None) => {
                                proof {
                                    assert(input_classification(*daemon, *inp) == Some(
                                        None::<Seq<u8>>,
                                    ));
                                    assert(pubkeys.deep_view() =~~= tx_pubkeys(
                                        *daemon,
                                        tx.inputs@.take(k + 1 as int),
                                    ));
                                }
                            },
                        }
                    },
                }
                k += 1;
            }
            proof {
                assert(tx.inputs@.take(kn as int) =~= tx.inputs@);
            }
            if pubkeys.len() > 0 {
                let tweak = calc_tweak(&pubkeys, &outpoints);
                match tweak {
                    None => {
                        proof {
                            assert(!tx_scan_ok(*daemon, *tx));
                            lemma_scan_not_ok(*daemon, store.spending@, block.txs@, i as int);
                        }
                        return Err(IndexError::TweakFailed { height });
                    },
                    Some(tw) => {
                        append_bytes(&mut tweaks, &tw);
                        proof {
                            assert(tx_tweak(*daemon, *tx) == tw@);
                        }
                    },
                }
            } else {
                proof {
                    assert(tx_pubkeys(*daemon, tx.inputs@).len() == 0);
                    assert(tx_tweak(*daemon, *tx) == Seq::<u8>::empty());
                    assert(tweaks@ =~= tweaks@ + tx_tweak(*daemon, *tx));
                }
            }
            proof {
                assert(tx_scan_ok(*daemon, *tx));
            }
        }
        proof {
            assert(block.txs@.take(i + 1 as int).drop_last() =~= block.txs@.take(i as int));
            assert(block.txs@.take(i + 1 as int).last() == block.txs@[i as int]);
            if !is_candidate(store.spending@, block.txs@[i as int]) {
                assert(tx_contribution(*daemon, store.spending@, block.txs@[i as int])
                    == Seq::<u8>::empty());
                assert(tweaks@ =~= block_hash@ + block_tweaks(
                    *daemon,
                    store.spending@,
                    block.txs@.take(i + 1 as int),
                ));
            } else {
                assert(tweaks@ =~= block_hash@ + block_tweaks(
                    *daemon,
                    store.spending@,
                    block.txs@.take(i + 1 as int),
                ));
            }
            assert forall|q: int|
                0 <= q < block.txs@.take(i + 1 as int).len() && is_candidate(
                    store.spending@,
                    #[trigger] block.txs@.take(i + 1 as int)[q],
                ) implies tx_scan_ok(*daemon, block.txs@.take(i + 1 as int)[q]) by {
                if q < i {
                    assert(block.txs@.take(i as int)[q] == block.txs@.take(i + 1 as int)[q]);
                }
            }
        }
        i += 1;
    }
    proof {
        assert(block.txs@.take(n as int) =~= block.txs@);
    }
    batch.tweak_rows = tweaks;
    Ok(())
}

} // verus!
