use addrindex::batch::WriteBatch;
use addrindex::chain::Chain;
use addrindex::daemon::{Daemon, DaemonBlock};
use addrindex::index::Index;
use addrindex::metrics::Stats;
use addrindex::rows::{HashPrefixRow, ScriptHashRow, SpendingPrefixRow, TxidRow};
use addrindex::signals::ExitFlag;
use addrindex::sp::{is_tx_candidate, scan_single_block_for_silent_payments};
use addrindex::store::Store;
use addrindex::types::{Block, Transaction, TxInput, TxOutput};
use addrindex::visitor::index_single_block;
use addrindex::IndexError;

fn hash32(b: u8) -> Vec<u8> {
    vec![b; 32]
}

fn coinbase_tx(txid_byte: u8, output_scripts: Vec<Vec<u8>>) -> Transaction {
    Transaction {
        txid: hash32(txid_byte),
        inputs: vec![TxInput {
            prev_txid: vec![0u8; 32],
            prev_vout: u32::MAX,
            script_sig: vec![],
            witness: vec![],
        }],
        outputs: output_scripts
            .into_iter()
            .map(|s| TxOutput { script_pubkey: s })
            .collect(),
    }
}

fn spending_tx(txid_byte: u8, prev: (u8, u32), output_scripts: Vec<Vec<u8>>) -> Transaction {
    Transaction {
        txid: hash32(txid_byte),
        inputs: vec![TxInput {
            prev_txid: hash32(prev.0),
            prev_vout: prev.1,
            script_sig: vec![],
            witness: vec![],
        }],
        outputs: output_scripts
            .into_iter()
            .map(|s| TxOutput { script_pubkey: s })
            .collect(),
    }
}

fn p2wpkh_script() -> Vec<u8> {
    let mut s = vec![0x00u8, 0x14];
    s.extend(vec![0xabu8; 20]);
    s
}

fn op_return_script() -> Vec<u8> {
    vec![0x6au8]
}

fn p2tr_script(xonly: &[u8]) -> Vec<u8> {
    let mut s = vec![0x51u8, 0x20];
    s.extend_from_slice(xonly);
    s
}

fn empty_block(n: u8) -> DaemonBlock {
    DaemonBlock {
        hash: hash32(n),
        header: vec![n; 80],
        block: Block { header: vec![n; 80], txs: vec![] },
    }
}

fn fresh_index(batch_size: usize, limit: Option<usize>) -> Index {
    Index {
        store: Store::new(),
        batch_size,
        lookup_limit: limit,
        chain: Chain::new(hash32(0), vec![0u8; 80]),
        stats: Stats::new(),
        is_ready: false,
        flush_needed: false,
        compact_on_sync: false,
    }
}

fn sha256(data: &[u8]) -> Vec<u8> {
    let h = <bitcoin::hashes::sha256::Hash as bitcoin::hashes::Hash>::hash(data);
    <bitcoin::hashes::sha256::Hash as bitcoin::hashes::Hash>::to_byte_array(h).to_vec()
}

#[test]
fn sync_three_headers_in_chunks_of_two() {
    // Empty chain, three new headers at heights 1..=3, batch size 2: the
    // first call indexes chunks [1,2] and [3], persists 3 header rows and
    // advances the tip; only the next call reports fully synced.
    let daemon = Daemon {
        blocks: vec![empty_block(0), empty_block(1), empty_block(2), empty_block(3)],
        txs: vec![],
    };
    let mut ix = fresh_index(2, None);
    let r = ix.sync(&daemon, &ExitFlag::new());
    assert_eq!(r, Ok(false));
    assert!(!ix.is_ready());
    assert_eq!(ix.store.headers.len(), 3);
    assert_eq!(ix.chain.height(), 3);
    assert_eq!(ix.store.tip, Some(hash32(3)));
    assert!(ix.flush_needed);
    let r2 = ix.sync(&daemon, &ExitFlag::new());
    assert_eq!(r2, Ok(true));
    assert!(ix.is_ready());
}

#[test]
fn sync_interrupted_reports_last_completed_height() {
    // the chain tip (height 0, genesis) is the last safely-completed height
    let daemon = Daemon { blocks: vec![empty_block(0), empty_block(1)], txs: vec![] };
    let mut ix = fresh_index(2, None);
    let stop = ExitFlag { stop: true };
    let r = ix.sync(&daemon, &stop);
    assert_eq!(r, Err(IndexError::Interrupted { height: 0 }));
    assert_eq!(ix.store.headers.len(), 0);
    assert!(r.unwrap_err().is_fatal() == false);
}

#[test]
fn sp_sync_interrupted_reports_last_completed_height() {
    let daemon = Daemon { blocks: (0..=4u8).map(empty_block).collect(), txs: vec![] };
    let mut ix = fresh_index(2, None);
    assert_eq!(ix.sync(&daemon, &ExitFlag::new()), Ok(false));
    ix.store.sp_tip = Some(hash32(1));
    let stop = ExitFlag { stop: true };
    // the window [2, 4) is pending; height 1 is the last safely completed
    let r = ix.silent_payments_sync(&daemon, &stop);
    assert_eq!(r, Err(IndexError::Interrupted { height: 1 }));
    assert_eq!(ix.store.sp_tip, Some(hash32(1)));
}

#[test]
fn configured_compaction_runs_when_standard_sync_catches_up() {
    let daemon = Daemon { blocks: vec![empty_block(0), empty_block(1)], txs: vec![] };
    let mut ix = fresh_index(2, None);
    ix.compact_on_sync = true;
    assert_eq!(ix.sync(&daemon, &ExitFlag::new()), Ok(false));
    assert!(ix.flush_needed);
    let flushes = ix.store.flush_count;
    assert_eq!(ix.sync(&daemon, &ExitFlag::new()), Ok(true));
    assert_eq!(ix.store.flush_count, flushes + 1);
    assert!(!ix.flush_needed);
    // left unconfigured (the original's standard path), catching up never
    // compacts
    let mut plain = fresh_index(2, None);
    assert_eq!(plain.sync(&daemon, &ExitFlag::new()), Ok(false));
    assert_eq!(plain.sync(&daemon, &ExitFlag::new()), Ok(true));
    assert_eq!(plain.store.flush_count, 0);
    assert!(plain.flush_needed);
}

#[test]
fn block_rows_coinbase_and_spend() {
    // One coinbase transaction (unspendable output) and one ordinary
    // transaction spending (txidA, 0) with a P2WPKH output: 2 txid rows,
    // 1 funding row, 1 spending row, no row for the coinbase input.
    let block = Block {
        header: vec![7u8; 80],
        txs: vec![
            coinbase_tx(0x11, vec![op_return_script()]),
            spending_tx(0x22, (0xaa, 0), vec![p2wpkh_script()]),
        ],
    };
    let mut batch = WriteBatch::default();
    index_single_block(&hash32(9), &block, 5, &mut batch);
    assert_eq!(batch.txid_rows.len(), 2);
    assert_eq!(batch.funding_rows.len(), 1);
    assert_eq!(batch.spending_rows.len(), 1);
    assert_eq!(batch.header_rows.len(), 1);
    assert_eq!(batch.tip_row, hash32(9));
    let expected_spend = SpendingPrefixRow::row(&hash32(0xaa), 0, 5);
    assert_eq!(batch.spending_rows[0], expected_spend);
    let sh = sha256(&p2wpkh_script());
    assert_eq!(batch.funding_rows[0], ScriptHashRow::row(&sh, 5));
    assert_eq!(batch.txid_rows[0], TxidRow::row(&hash32(0x11), 5));
}

#[test]
fn index_then_query_returns_height_hash() {
    let block = Block {
        header: vec![1u8; 80],
        txs: vec![
            coinbase_tx(0x11, vec![p2wpkh_script()]),
            spending_tx(0x22, (0xaa, 3), vec![p2wpkh_script()]),
        ],
    };
    let mut ix = fresh_index(2, None);
    let mut batch = WriteBatch::default();
    index_single_block(&hash32(1), &block, 1, &mut batch);
    batch.sort();
    ix.store.write(&batch);
    ix.chain.update(&vec![addrindex::chain::NewHeader {
        hash: hash32(1),
        header: vec![1u8; 80],
        height: 1,
    }]);
    let sh = sha256(&p2wpkh_script());
    let by_funding = ix.filter_by_funding(&sh);
    assert!(by_funding.contains(&hash32(1)));
    let by_txid = ix.filter_by_txid(&hash32(0x22));
    assert_eq!(by_txid, vec![hash32(1)]);
    let by_spending = ix.filter_by_spending(&hash32(0xaa), 3);
    assert_eq!(by_spending, vec![hash32(1)]);
    // the funding key is the script's sha256 digest, not the script itself
    let mut raw = p2wpkh_script();
    raw.resize(32, 0);
    assert!(ix.filter_by_funding(&raw).is_empty());
}

#[test]
fn indexing_twice_gives_identical_sorted_batches() {
    let block = Block {
        header: vec![1u8; 80],
        txs: vec![
            coinbase_tx(0x31, vec![p2wpkh_script()]),
            spending_tx(0x12, (0xcc, 1), vec![p2wpkh_script(), op_return_script()]),
        ],
    };
    let mut b1 = WriteBatch::default();
    let mut b2 = WriteBatch::default();
    index_single_block(&hash32(4), &block, 9, &mut b1);
    index_single_block(&hash32(4), &block, 9, &mut b2);
    b1.sort();
    b2.sort();
    assert_eq!(b1.funding_rows, b2.funding_rows);
    assert_eq!(b1.spending_rows, b2.spending_rows);
    assert_eq!(b1.txid_rows, b2.txid_rows);
    let rows1: Vec<Vec<u8>> = b1.funding_rows.iter().map(|r| r.to_db_row()).collect();
    let rows2: Vec<Vec<u8>> = b2.funding_rows.iter().map(|r| r.to_db_row()).collect();
    assert_eq!(rows1, rows2);
}

#[test]
fn sorted_batch_is_non_decreasing() {
    let block = Block {
        header: vec![1u8; 80],
        txs: vec![
            coinbase_tx(0x99, vec![p2wpkh_script()]),
            spending_tx(0x01, (0xff, 7), vec![vec![0x51u8, 0x20, 0x02], p2wpkh_script()]),
            spending_tx(0x55, (0x02, 0), vec![vec![0xacu8]]),
        ],
    };
    let mut batch = WriteBatch::default();
    index_single_block(&hash32(2), &block, 3, &mut batch);
    batch.sort();
    for fam in [&batch.funding_rows, &batch.spending_rows, &batch.txid_rows] {
        for w in fam.windows(2) {
            assert!(
                w[0].prefix < w[1].prefix
                    || (w[0].prefix == w[1].prefix && w[0].height <= w[1].height)
            );
        }
    }
}

#[test]
fn chunk_size_does_not_change_persisted_rows() {
    let mk_daemon = || {
        let mut blocks = vec![empty_block(0)];
        for n in 1..=5u8 {
            blocks.push(DaemonBlock {
                hash: hash32(n),
                header: vec![n; 80],
                block: Block {
                    header: vec![n; 80],
                    txs: vec![
                        coinbase_tx(n.wrapping_mul(7), vec![p2wpkh_script()]),
                        spending_tx(n.wrapping_mul(11), (n, 0), vec![vec![0xacu8, n]]),
                    ],
                },
            });
        }
        Daemon { blocks, txs: vec![] }
    };
    let mut ix1 = fresh_index(1, None);
    let mut ix5 = fresh_index(5, None);
    assert_eq!(ix1.sync(&mk_daemon(), &ExitFlag::new()), Ok(false));
    assert_eq!(ix5.sync(&mk_daemon(), &ExitFlag::new()), Ok(false));
    assert_eq!(ix1.store.funding, ix5.store.funding);
    assert_eq!(ix1.store.spending, ix5.store.spending);
    assert_eq!(ix1.store.txid, ix5.store.txid);
    assert_eq!(ix1.store.tip, ix5.store.tip);
}

#[test]
fn limit_query_boundary() {
    // with limit 2, exactly 2 entries succeed and exactly 3 raise the
    // "too large" condition
    let ix = fresh_index(1, Some(2));
    assert_eq!(ix.limit_result(vec![10u32, 20]), Ok(vec![10u32, 20]));
    assert_eq!(
        ix.limit_result(vec![10u32, 20, 30]),
        Err(IndexError::TooManyResults { limit: 2 })
    );
    let unlimited = fresh_index(1, None);
    assert_eq!(unlimited.limit_result(vec![1u8, 2, 3, 4]), Ok(vec![1u8, 2, 3, 4]));
}

#[test]
fn no_taproot_output_is_never_scanned() {
    let store = Store::new();
    let tx = spending_tx(0x42, (0x43, 0), vec![p2wpkh_script()]);
    assert!(!is_tx_candidate(&store, &tx));
    // the scan succeeds and appends nothing even though the input's previous
    // transaction is unresolvable: key extraction is never reached
    let daemon = Daemon { blocks: vec![], txs: vec![] };
    let block = Block { header: vec![1u8; 80], txs: vec![tx] };
    let mut batch = WriteBatch::default();
    let r = scan_single_block_for_silent_payments(&daemon, &store, &hash32(8), &block, 4, &mut batch);
    assert_eq!(r, Ok(()));
    assert_eq!(batch.tweak_rows, hash32(8));
}

#[test]
fn spent_taproot_output_is_not_a_candidate() {
    let xonly = [0x33u8; 32];
    let tx = spending_tx(0x42, (0x43, 0), vec![p2tr_script(&xonly)]);
    let mut store = Store::new();
    assert!(is_tx_candidate(&store, &tx));
    // record the taproot outpoint (txid 0x42, vout 0) as spent
    let row = SpendingPrefixRow::row(&hash32(0x42), 0, 2);
    let mut batch = WriteBatch::default();
    batch.spending_rows.push(row);
    store.write(&batch);
    assert!(!is_tx_candidate(&store, &tx));
}

const GEN_PUBKEY: [u8; 33] = [
    0x02, 0x79, 0xBE, 0x66, 0x7E, 0xF9, 0xDC, 0xBB, 0xAC, 0x55, 0xA0, 0x62, 0x95, 0xCE, 0x87,
    0x0B, 0x07, 0x02, 0x9B, 0xFC, 0xDB, 0x2D, 0xCE, 0x28, 0xD9, 0x59, 0xF2, 0x81, 0x5B, 0x16,
    0xF8, 0x17, 0x98,
];

#[test]
fn silent_payments_tweak_for_one_candidate() {
    // previous output: P2WPKH locking the generator-point key
    let h160 = <bitcoin::hashes::hash160::Hash as bitcoin::hashes::Hash>::to_byte_array(
        <bitcoin::hashes::hash160::Hash as bitcoin::hashes::Hash>::hash(&GEN_PUBKEY),
    );
    let mut prev_spk = vec![0x00u8, 0x14];
    prev_spk.extend_from_slice(&h160);
    let prev_tx = Transaction {
        txid: hash32(0x77),
        inputs: vec![],
        outputs: vec![TxOutput { script_pubkey: prev_spk }],
    };
    // scanned transaction: spends it with the key in the witness, and has an
    // unspent taproot output
    let tx = Transaction {
        txid: hash32(0x88),
        inputs: vec![TxInput {
            prev_txid: hash32(0x77),
            prev_vout: 0,
            script_sig: vec![],
            witness: vec![vec![0x30u8; 71], GEN_PUBKEY.to_vec()],
        }],
        outputs: vec![TxOutput { script_pubkey: p2tr_script(&GEN_PUBKEY[1..]) }],
    };
    let daemon = Daemon { blocks: vec![], txs: vec![prev_tx] };
    let store = Store::new();
    let block = Block { header: vec![1u8; 80], txs: vec![tx] };
    let mut batch = WriteBatch::default();
    let r = scan_single_block_for_silent_payments(&daemon, &store, &hash32(6), &block, 3, &mut batch);
    assert_eq!(r, Ok(()));
    // expected: block hash followed by exactly one compressed point
    let key = silentpayments::secp256k1::PublicKey::from_slice(&GEN_PUBKEY).unwrap();
    let outpoint = silentpayments::utils::OutPoint::from_txid_bytes_and_vout([0x77u8; 32], 0);
    let expected =
        silentpayments::utils::receiving::calculate_tweak_data(&[&key], &[outpoint]).unwrap();
    let mut want = hash32(6);
    want.extend_from_slice(&expected.serialize());
    assert_eq!(batch.tweak_rows, want);
}

#[test]
fn unresolvable_candidate_input_is_fatal() {
    let xonly = [0x44u8; 32];
    let tx = spending_tx(0x42, (0x43, 0), vec![p2tr_script(&xonly)]);
    let daemon = Daemon { blocks: vec![], txs: vec![] };
    let store = Store::new();
    let block = Block { header: vec![1u8; 80], txs: vec![tx] };
    let mut batch = WriteBatch::default();
    let r = scan_single_block_for_silent_payments(&daemon, &store, &hash32(8), &block, 4, &mut batch);
    assert_eq!(r, Err(IndexError::MissingPrevout { height: 4 }));
    assert!(r.unwrap_err().is_fatal());
}

#[test]
fn sp_sync_bookmark_resume_and_catch_up() {
    // chain with heights 0..=4, bookmark at height 1: the pass scans [2, 4)
    // and moves the bookmark to height 3; once caught up it compacts and
    // reports ready
    let daemon = Daemon {
        blocks: (0..=4u8).map(empty_block).collect(),
        txs: vec![],
    };
    let mut ix = fresh_index(2, None);
    assert_eq!(ix.sync(&daemon, &ExitFlag::new()), Ok(false));
    ix.store.sp_tip = Some(hash32(1));
    let r = ix.silent_payments_sync(&daemon, &ExitFlag::new());
    assert_eq!(r, Ok(false));
    assert_eq!(ix.store.sp_tip, Some(hash32(3)));
    assert_eq!(ix.store.tweaks.len(), 1);
    assert!(ix.flush_needed);
    ix.store.sp_tip = Some(hash32(4));
    let flushes_before = ix.store.flush_count;
    let r2 = ix.silent_payments_sync(&daemon, &ExitFlag::new());
    assert_eq!(r2, Ok(true));
    assert!(ix.is_ready());
    assert!(!ix.flush_needed);
    assert_eq!(ix.store.flush_count, flushes_before + 1);
}

#[test]
fn sp_sync_bad_bookmark_is_fatal() {
    let daemon = Daemon { blocks: vec![empty_block(0)], txs: vec![] };
    let mut ix = fresh_index(2, None);
    ix.store.sp_tip = Some(hash32(0xee));
    let r = ix.silent_payments_sync(&daemon, &ExitFlag::new());
    assert_eq!(r, Err(IndexError::BadTip));
    assert!(IndexError::BadTip.is_fatal());
}

#[test]
fn row_codec_round_trip() {
    let row = HashPrefixRow { prefix: 0x0102030405060708, height: 7 };
    let bytes = row.to_db_row();
    assert_eq!(bytes, vec![1u8, 2, 3, 4, 5, 6, 7, 8, 0, 0, 0, 7]);
    assert_eq!(HashPrefixRow::from_db_row(&bytes), Some(row));
    assert_eq!(HashPrefixRow::from_db_row(&vec![0u8; 5]), None);
}

#[test]
fn load_restores_chain_from_store() {
    // index three blocks, then rebuild an index over the same store
    let daemon = Daemon {
        blocks: (0..=3u8).map(empty_block).collect(),
        txs: vec![],
    };
    let mut ix = fresh_index(2, None);
    assert_eq!(ix.sync(&daemon, &ExitFlag::new()), Ok(false));
    let store = ix.store;
    let reloaded =
        Index::load(store, Chain::new(hash32(0), vec![0u8; 80]), 2, Some(10), 0).unwrap();
    assert_eq!(reloaded.chain.height(), 3);
    assert!(!reloaded.is_ready());
    // dropping the last header forces its reindexing
    let store2 = reloaded.store;
    let redo = Index::load(store2, Chain::new(hash32(0), vec![0u8; 80]), 2, None, 1).unwrap();
    assert_eq!(redo.chain.height(), 2);
}

#[test]
fn malformed_candidate_input_is_classify_failure() {
    // spending a P2WPKH previous output with a non-empty script sig is
    // inconsistent witness data: the classifier rejects it
    let prev_tx = Transaction {
        txid: hash32(0x77),
        inputs: vec![],
        outputs: vec![TxOutput { script_pubkey: p2wpkh_script() }],
    };
    let tx = Transaction {
        txid: hash32(0x88),
        inputs: vec![TxInput {
            prev_txid: hash32(0x77),
            prev_vout: 0,
            script_sig: vec![0x01, 0x02],
            witness: vec![vec![0x30u8; 71]],
        }],
        outputs: vec![TxOutput { script_pubkey: p2tr_script(&[0x55u8; 32]) }],
    };
    let daemon = Daemon { blocks: vec![], txs: vec![prev_tx] };
    let block = Block { header: vec![1u8; 80], txs: vec![tx] };
    let mut batch = WriteBatch::default();
    let r = scan_single_block_for_silent_payments(
        &daemon,
        &Store::new(),
        &hash32(5),
        &block,
        9,
        &mut batch,
    );
    assert_eq!(r, Err(IndexError::ClassifyFailed { height: 9 }));
}

#[test]
fn row_family_size_is_twelve_bytes_per_row() {
    let rows = vec![
        HashPrefixRow { prefix: 1, height: 1 },
        HashPrefixRow { prefix: 2, height: 2 },
        HashPrefixRow { prefix: 3, height: 3 },
    ];
    assert_eq!(addrindex::batch::db_rows_size(&rows), 36);
    assert_eq!(rows[0].to_db_row().len(), 12);
}
