//! The orchestrator: owns the store and the chain view, drives the two
//! forward-progress sync loops in cancellable chunks, and answers bounded
//! queries by prefix scan, height decode and chain resolution.
use vstd::prelude::*;
use vstd::multiset::Multiset;
use vstd::seq_lib::lemma_multiset_commutative;
use crate::batch::WriteBatch;
use crate::chain::{hash_at, last_hash_match, lemma_last_hash_match_eqv, Chain, NewHeader};
use crate::daemon::Daemon;
use crate::metrics::Stats;
use crate::rows::{
    prefix_of, spending_prefix_of, HashPrefixRow, ScriptHashRow, SpendingPrefixRow, TxidRow,
};
use crate::signals::ExitFlag;
use crate::sp::{block_tweaks, scan_ok, scan_single_block_for_silent_payments};
use crate::store::{header_eqv, prefix_filter, Store};
use crate::visitor::{funding_rows_of, index_single_block, spending_rows_of, txid_rows_of};
use crate::IndexError;

verus! {

/// The silent-payments pass scans no block below this protocol activation
/// floor.
pub const SP_ACTIVATION_HEIGHT: u32 = 70_000;

/// How many heights one silent-payments call will scan at most.
pub const SP_WINDOW: u32 = 2_000;

/// Funding rows of the daemon's blocks at heights `lo <= h < hi`, in height
/// order.
pub open spec fn range_funding_rows(d: Daemon, lo: int, hi: int) -> Seq<HashPrefixRow>
    decreases hi - lo,
{
    if lo >= hi {
        Seq::empty()
    } else {
        range_funding_rows(d, lo, hi - 1) + funding_rows_of(
            d.blocks@[hi - 1].block.txs@,
            (hi - 1) as u32,
        )
    }
}

/// Spending rows of the daemon's blocks at heights `lo <= h < hi`.
pub open spec fn range_spending_rows(d: Daemon, lo: int, hi: int) -> Seq<HashPrefixRow>
    decreases hi - lo,
{
    if lo >= hi {
        Seq::empty()
    } else {
        range_spending_rows(d, lo, hi - 1) + spending_rows_of(
            d.blocks@[hi - 1].block.txs@,
            (hi - 1) as u32,
        )
    }
}

/// By-txid rows of the daemon's blocks at heights `lo <= h < hi`.
pub open spec fn range_txid_rows(d: Daemon, lo: int, hi: int) -> Seq<HashPrefixRow>
    decreases hi - lo,
{
    if lo >= hi {
        Seq::empty()
    } else {
        range_txid_rows(d, lo, hi - 1) + txid_rows_of(
            d.blocks@[hi - 1].block.txs@,
            (hi - 1) as u32,
        )
    }
}

/// The hashes a height sequence currently resolves to, rolled-back heights
/// silently dropped.
pub open spec fn resolve_heights(c: Chain, rows: Seq<HashPrefixRow>) -> Seq<Seq<u8>>
    decreases rows.len(),
{
    if rows.len() == 0 {
        Seq::empty()
    } else {
        resolve_heights(c, rows.drop_last()) + (match hash_at(c, rows.last().height) {
            Some(h) => seq![h],
            None => Seq::empty(),
        })
    }
}

/// What a prefix query over one family returns: matching rows in key order,
/// each height resolved through the chain view.
pub open spec fn query_result(c: Chain, family: Seq<HashPrefixRow>, prefix: u64) -> Seq<Seq<u8>> {
    resolve_heights(c, prefix_filter(family, prefix))
}

/// Every daemon block at a height in `[lo, hi)` scans for silent payments
/// without a trust violation, against the given spending index.
pub open spec fn blocks_scan_ok(
    d: Daemon,
    spending: Seq<HashPrefixRow>,
    lo: int,
    hi: int,
) -> bool {
    forall|h: int|
        lo <= h < hi ==> scan_ok(d, spending, (#[trigger] d.blocks@[h]).block.txs@)
}

/// The height the silent-payments pass resumes from: the persisted bookmark's
/// chain position plus one, the activation floor when no bookmark exists yet,
/// and nothing when the bookmark resolves to no chain position (a violated
/// trust invariant).
pub open spec fn sp_resume_height(store: Store, chain: Chain) -> Option<int> {
    match store.sp_tip {
        None => Some(SP_ACTIVATION_HEIGHT as int),
        Some(t) => match last_hash_match(chain.entries@, t@) {
            None => None,
            Some(h) => Some(h + 1),
        },
    }
}

/// Where one silent-payments window ends: one window above the resume point,
/// capped strictly below the chain tip.
pub open spec fn sp_window_end(start: int, chain: Chain) -> int {
    if start + SP_WINDOW < chain.entries@.len() - 1 {
        start + SP_WINDOW
    } else {
        chain.entries@.len() - 1
    }
}

/// The tweak records one silent-payments pass over `[lo, hi)` persists: one
/// per chunk, holding the chunk's last block's hash and tweak payload (each
/// chunk's batch keeps only its last visited block's payload).
pub open spec fn sp_chunk_records(
    d: Daemon,
    spending: Seq<HashPrefixRow>,
    lo: int,
    hi: int,
    bs: int,
) -> Seq<Seq<u8>>
    decreases hi - lo,
{
    if lo >= hi || bs < 1 {
        Seq::empty()
    } else {
        let mid = if lo + bs < hi {
            lo + bs
        } else {
            hi
        };
        seq![
            d.blocks@[mid - 1].hash@ + block_tweaks(d, spending, d.blocks@[mid - 1].block.txs@),
        ] + sp_chunk_records(d, spending, mid, hi, bs)
    }
}

/// Confirmed transactions' address index.
pub struct Index {
    pub store: Store,
    pub batch_size: usize,
    pub lookup_limit: Option<usize>,
    pub chain: Chain,
    pub stats: Stats,
    pub is_ready: bool,
    pub flush_needed: bool,
    /// Whether catching up on the standard pass also triggers the one-time
    /// full compaction. The silent-payments pass always compacts on catching
    /// up; for the standard pass the choice is explicit configuration.
    pub compact_on_sync: bool,
}

impl Index {
    /// Index invariant: a well-formed store and chain, a positive chunk size,
    /// and a chain view no further along than the persisted header rows.
    pub open spec fn wf(&self) -> bool {
        &&& self.store.wf()
        &&& self.chain.wf()
        &&& self.batch_size >= 1
        &&& self.chain.entries@.len() <= self.store.headers@.len() + 1
    }

    /// Construct the index over an existing store: rebuild the chain view as
    /// genesis plus the persisted headers up to the persisted tip's position
    /// (when a tip exists), then drop the most recent `reindex_last_blocks`
    /// headers to force their reindexing. A persisted tip matching no
    /// persisted header is a violated trust invariant.
    pub fn load(
        store: Store,
        chain: Chain,
        batch_size: usize,
        lookup_limit: Option<usize>,
        reindex_last_blocks: usize,
    ) -> (r: Result<Index, IndexError>)
        requires
            store.wf(),
            chain.wf(),
            chain.entries@.len() == 1,
            batch_size >= 1,
        ensures
            (r is Err <==> (store.tip matches Some(t) && last_hash_match(store.headers@, t@)
                is None)),
            (r matches Err(e) ==> e == IndexError::BadTip),
            (r matches Ok(ix) ==> ix.wf() && ix.batch_size == batch_size && ix.lookup_limit
                == lookup_limit && !ix.is_ready && !ix.flush_needed && !ix.compact_on_sync
                && ix.store == store && (store.tip is None ==> ix.chain.entries@
                == chain.entries@) && (store.tip matches Some(t) ==> last_hash_match(
                store.headers@,
                t@,
            ) matches Some(k) && {
                let kept = if k + 2 - reindex_last_blocks >= 1 {
                    k + 2 - reindex_last_blocks
                } else {
                    1
                };
                &&& ix.chain.entries@.len() == kept
                &&& ix.chain.entries@[0] == chain.entries@[0]
                &&& forall|i: int|
                    0 < i < kept ==> header_eqv(
                        #[trigger] ix.chain.entries@[i],
                        store.headers@[i - 1],
                    )
            })),
    {
        let mut chain = chain;
        let tip = store.get_tip();
        match &tip {
            Some(t) => {
                let headers = store.read_headers();
                proof {
                    assert forall|i: int| 0 <= i < headers@.len() implies (
                    #[trigger] headers@[i]).height == i + 1 && headers@[i].wf() by {
                        assert(header_eqv(headers@[i], store.headers@[i]));
                    }
                    lemma_last_hash_match_eqv(headers@, store.headers@, t@);
                }
                match chain.load(&headers, t) {
                    Ok(()) => {},
                    Err(e) => {
                        return Err(e);
                    },
                }
                let ghost loaded = chain.entries@;
                chain.drop_last_headers(reindex_last_blocks);
                proof {
                    assert forall|i: int| 0 < i < chain.entries@.len() implies header_eqv(
                        #[trigger] chain.entries@[i],
                        store.headers@[i - 1],
                    ) by {
                        assert(chain.entries@[i] == loaded[i]);
                        assert(header_eqv(loaded[i], headers@[i - 1]));
                        assert(header_eqv(headers@[i - 1], store.headers@[i - 1]));
                    }
                    assert(chain.entries@[0] == loaded[0]);
                }
            },
            None => {},
        }
        let mut stats = Stats::new();
        stats.observe_chain(&chain);
        stats.observe_db(&store);
        Ok(
            Index {
                store,
                batch_size,
                lookup_limit,
                chain,
                stats,
                is_ready: false,
                flush_needed: false,
                compact_on_sync: false,
            },
        )
    }

    /// The chain view.
    pub fn chain(&self) -> (r: &Chain)
        ensures
            r == &self.chain,
    {
        &self.chain
    }

    /// Whether the last sync call found nothing left to do.
    pub fn is_ready(&self) -> (r: bool)
        ensures
            r == self.is_ready,
    {
        self.is_ready
    }

    /// Enforce the configured result bound: all entries when they fit, the
    /// "result too large" condition when more rows matched than the limit —
    /// never a silently truncated answer.
    pub fn limit_result<T>(&self, entries: Vec<T>) -> (r: Result<Vec<T>, IndexError>)
        ensures
            match self.lookup_limit {
                Some(limit) => if entries@.len() > limit {
                    r matches Err(e) && e == (IndexError::TooManyResults { limit })
                } else {
                    r matches Ok(v) && v == entries
                },
                None => r matches Ok(v) && v == entries,
            },
    {
        match self.lookup_limit {
            Some(limit) => {
                if entries.len() > limit {
                    Err(IndexError::TooManyResults { limit })
                } else {
                    Ok(entries)
                }
            },
            None => Ok(entries),
        }
    }

    /// Process one chunk of headers as one atomic batch: fetch each block,
    /// run it through the active visitor in height order, sort the row
    /// families and persist. In standard mode (`sp_mode` false) the batch
    /// holds the chunk's rows and headers and moves the tip marker; in
    /// silent-payments mode it holds the tweak payload of the chunk's last
    /// block, which also moves the silent-payments bookmark.
    pub fn sync_blocks(
        &mut self,
        daemon: &Daemon,
        headers: &Vec<NewHeader>,
        s: usize,
        e: usize,
        sp_mode: bool,
    ) -> (r: Result<(), IndexError>)
        requires
            old(self).wf(),
            daemon.wf(),
            0 <= s < e <= headers@.len(),
            forall|k: int|
                s <= k < e ==> (#[trigger] headers@[k].height) == headers@[s as int].height + (k
                    - s) && (headers@[k].height as int) < daemon.blocks@.len()
                    && headers@[k].hash@ == daemon.blocks@[headers@[k].height as int].hash@,
            !sp_mode ==> headers@[s as int].height as int <= old(self).store.headers@.len() + 1
                && headers@[s as int].height as int >= old(self).chain.entries@.len(),
        ensures
            final(self).wf(),
            final(self).chain == old(self).chain,
            final(self).batch_size == old(self).batch_size,
            final(self).lookup_limit == old(self).lookup_limit,
            final(self).is_ready == old(self).is_ready,
            final(self).flush_needed == old(self).flush_needed,
            final(self).compact_on_sync == old(self).compact_on_sync,
            final(self).store.flush_count == old(self).store.flush_count,
            (r matches Err(err) ==> (err matches IndexError::MissingBlock { .. } || err matches
                IndexError::MissingPrevout { .. } || err matches IndexError::ClassifyFailed { .. }
                || err matches IndexError::TweakFailed { .. })),
            sp_mode ==> ((r is Ok) <==> blocks_scan_ok(
                *daemon,
                old(self).store.spending@,
                headers@[s as int].height as int,
                headers@[s as int].height + (e - s),
            )),
            !sp_mode ==> r is Ok && {
                let lo = headers@[s as int].height as int;
                let hi = lo + (e - s);
                &&& final(self).store.funding@.to_multiset() == old(self).store.funding@.to_multiset().add(range_funding_rows(*daemon, lo, hi).to_multiset())
                &&& final(self).store.spending@.to_multiset() == old(self).store.spending@.to_multiset().add(
                    range_spending_rows(*daemon, lo, hi).to_multiset(),
                )
                &&& final(self).store.txid@.to_multiset() == old(self).store.txid@.to_multiset().add(range_txid_rows(*daemon, lo, hi).to_multiset())
                &&& final(self).store.headers@.len() == hi - 1
                &&& final(self).store.headers@.take(lo - 1) == old(self).store.headers@.take(
                    lo - 1,
                )
                &&& forall|h: int|
                    lo - 1 <= h < hi - 1 ==> (#[trigger] final(self).store.headers@[h]).hash@
                        == daemon.blocks@[h + 1].hash@ && final(self).store.headers@[h].header@
                        == daemon.blocks@[h + 1].header@
                &&& (final(self).store.tip matches Some(t) && t@ == daemon.blocks@[hi
                    - 1].hash@)
                &&& final(self).store.tweaks == old(self).store.tweaks
                &&& final(self).store.sp_tip == old(self).store.sp_tip
            },
            sp_mode ==> {
                &&& final(self).store.funding == old(self).store.funding
                &&& final(self).store.spending == old(self).store.spending
                &&& final(self).store.txid == old(self).store.txid
                &&& final(self).store.headers == old(self).store.headers
                &&& final(self).store.tip == old(self).store.tip
                &&& (r matches Ok(()) ==> {
                    let last = daemon.blocks@[headers@[e - 1].height as int];
                    &&& final(self).store.tweaks@.len() == old(self).store.tweaks@.len() + 1
                    &&& final(self).store.tweaks@.take(old(self).store.tweaks@.len() as int)
                        == old(self).store.tweaks@
                    &&& final(self).store.tweaks@.last()@ == last.hash@ + block_tweaks(
                        *daemon,
                        old(self).store.spending@,
                        last.block.txs@,
                    )
                    &&& (final(self).store.sp_tip matches Some(t) && t@ == last.hash@)
                })
                &&& (r matches Err(err) ==> err.spec_is_fatal() && final(self).store.tweaks
                    == old(self).store.tweaks && final(self).store.sp_tip == old(self).store.sp_tip)
            },
    {
        let ghost lo = headers@[s as int].height as int;
        let mut batch = WriteBatch::default();
        let mut k: usize = s;
        while k < e
            invariant
                old(self).wf(),
                daemon.wf(),
                0 <= s <= k <= e <= headers@.len(),
                forall|q: int|
                    s <= q < e ==> (#[trigger] headers@[q].height) == headers@[s as int].height
                        + (q - s) && (headers@[q].height as int) < daemon.blocks@.len()
                        && headers@[q].hash@ == daemon.blocks@[headers@[q].height as int].hash@,
                lo == headers@[s as int].height as int,
                !sp_mode ==> lo <= old(self).store.headers@.len() + 1 && lo >= old(
                    self,
                ).chain.entries@.len(),
                *self == *old(self),
                !sp_mode ==> {
                    &&& batch.funding_rows@ == range_funding_rows(*daemon, lo, lo + (k - s))
                    &&& batch.spending_rows@ == range_spending_rows(*daemon, lo, lo + (k - s))
                    &&& batch.txid_rows@ == range_txid_rows(*daemon, lo, lo + (k - s))
                    &&& batch.header_rows@.len() == k - s
                    &&& forall|j: int|
                        0 <= j < batch.header_rows@.len() ==> (
                        #[trigger] batch.header_rows@[j]).height == lo + j
                            && batch.header_rows@[j].hash@ == daemon.blocks@[lo + j].hash@
                            && batch.header_rows@[j].header@ == daemon.blocks@[lo + j].header@
                            && batch.header_rows@[j].wf()
                    &&& (k > s ==> batch.tip_row@ == daemon.blocks@[lo + (k - s) - 1].hash@)
                    &&& (k == s ==> batch.tip_row@.len() == 0)
                    &&& batch.tweak_rows@.len() == 0
                },
                sp_mode ==> blocks_scan_ok(
                    *daemon,
                    old(self).store.spending@,
                    lo,
                    lo + (k - s),
                ),
                sp_mode ==> {
                    &&& batch.funding_rows@.len() == 0
                    &&& batch.spending_rows@.len() == 0
                    &&& batch.txid_rows@.len() == 0
                    &&& batch.header_rows@.len() == 0
                    &&& batch.tip_row@.len() == 0
                    &&& (k > s ==> batch.tweak_rows@ == daemon.blocks@[headers@[k
                        - 1].height as int].hash@ + block_tweaks(
                        *daemon,
                        old(self).store.spending@,
                        daemon.blocks@[headers@[k - 1].height as int].block.txs@,
                    ))
                    &&& (k == s ==> batch.tweak_rows@.len() == 0)
                },
            decreases e - k,
        {
            let h = headers.get(k).unwrap();
            let found = daemon.find_block(&h.hash);
            match found {
                None => {
                    proof {
                        assert(daemon.blocks@[h.height as int].hash@ == h.hash@);
                        assert(false);
                    }
                    return Err(IndexError::MissingBlock { height: h.height });
                },
                Some(bi) => {
                    proof {
                        if bi as int != h.height as int {
                            if (bi as int) < (h.height as int) {
                                assert(daemon.blocks@[bi as int].hash@ != daemon.blocks@[
                                    h.height as int
                                ].hash@);
                            } else {
                                assert(daemon.blocks@[h.height as int].hash@ != daemon.blocks@[
                                    bi as int
                                ].hash@);
                            }
                            assert(false);
                        }
                    }
                    let b = daemon.blocks.get(bi).unwrap();
                    if !sp_mode {
                        let ghost hdr_pre = batch.header_rows@;
                        index_single_block(&b.hash, &b.block, h.height, &mut batch);
                        proof {
                            assert forall|j: int| 0 <= j < batch.header_rows@.len() implies (
                            #[trigger] batch.header_rows@[j]).height == lo + j
                                && batch.header_rows@[j].hash@ == daemon.blocks@[lo + j].hash@
                                && batch.header_rows@[j].header@ == daemon.blocks@[lo
                                + j].header@ && batch.header_rows@[j].wf() by {
                                if j < hdr_pre.len() {
                                    assert(batch.header_rows@.take(hdr_pre.len() as int)[j]
                                        == batch.header_rows@[j]);
                                    assert(batch.header_rows@[j] == hdr_pre[j]);
                                } else {
                                    assert(batch.header_rows@.last() == batch.header_rows@[j]);
                                }
                            }
                            assert(batch.funding_rows@ =~= range_funding_rows(
                                *daemon,
                                lo,
                                lo + (k + 1 - s),
                            ));
                            assert(batch.spending_rows@ =~= range_spending_rows(
                                *daemon,
                                lo,
                                lo + (k + 1 - s),
                            ));
                            assert(batch.txid_rows@ =~= range_txid_rows(
                                *daemon,
                                lo,
                                lo + (k + 1 - s),
                            ));
                        }
                    } else {
                        match scan_single_block_for_silent_payments(
                            daemon,
                            &self.store,
                            &b.hash,
                            &b.block,
                            h.height,
                            &mut batch,
                        ) {
                            Ok(()) => {
                                proof {
                                    assert(scan_ok(
                                        *daemon,
                                        old(self).store.spending@,
                                        daemon.blocks@[lo + (k - s)].block.txs@,
                                    ));
                                    assert forall|h2: int| lo <= h2 < lo + (k + 1 - s) implies
                                        scan_ok(
                                            *daemon,
                                            old(self).store.spending@,
                                            (#[trigger] daemon.blocks@[h2]).block.txs@,
                                        ) by {}
                                }
                            },
                            Err(err) => {
                                proof {
                                    assert(!scan_ok(
                                        *daemon,
                                        old(self).store.spending@,
                                        daemon.blocks@[h.height as int].block.txs@,
                                    ));
                                    assert(!blocks_scan_ok(
                                        *daemon,
                                        old(self).store.spending@,
                                        lo,
                                        lo + (e - s),
                                    ));
                                }
                                return Err(err);
                            },
                        }
                    }
                },
            }
            k += 1;
        }
        batch.sort();
        self.stats.observe_batch(&batch);
        self.store.write(&batch);
        self.stats.observe_db(&self.store);
        proof {
            if sp_mode {
                let last = daemon.blocks@[headers@[e - 1].height as int];
                assert(batch.tweak_rows@.take(32) =~= last.hash@);
            }
        }
        Ok(())
    }

    /// One standard sync round: pull all headers newer than the chain tip;
    /// when there are none, report fully synced (compacting first only when
    /// `compact_on_sync` is configured). Otherwise index the new blocks in
    /// `batch_size` chunks (cancellation polled per chunk, no partial chunk
    /// ever persisted; an interruption reports the last safely-completed
    /// height), advance the chain view, and report that more work may
    /// remain.
    pub fn sync(&mut self, daemon: &Daemon, exit_flag: &ExitFlag) -> (r: Result<
        bool,
        IndexError,
    >)
        requires
            old(self).wf(),
            daemon.wf(),
            old(self).store.flush_count < u64::MAX,
            forall|h: int|
                0 <= h < old(self).chain.entries@.len() && h < daemon.blocks@.len() ==> (
                #[trigger] old(self).chain.entries@[h]).hash@ == daemon.blocks@[h].hash@,
        ensures
            final(self).wf(),
            final(self).batch_size == old(self).batch_size,
            final(self).lookup_limit == old(self).lookup_limit,
            final(self).compact_on_sync == old(self).compact_on_sync,
            (daemon.blocks@.len() <= old(self).chain.entries@.len() ==> r == Ok::<
                bool,
                IndexError,
            >(true) && final(self).is_ready && final(self).chain == old(self).chain
                && final(self).store.funding == old(self).store.funding
                && final(self).store.spending == old(self).store.spending
                && final(self).store.txid == old(self).store.txid
                && final(self).store.headers == old(self).store.headers
                && final(self).store.tip == old(self).store.tip
                && final(self).store.sp_tip == old(self).store.sp_tip
                && final(self).store.tweaks == old(self).store.tweaks
                && (old(self).compact_on_sync && old(self).flush_needed
                    ==> final(self).store.flush_count == old(self).store.flush_count + 1
                    && !final(self).flush_needed)
                && (!(old(self).compact_on_sync && old(self).flush_needed)
                    ==> final(self).store == old(self).store && final(self).flush_needed == old(self).flush_needed)),
            (daemon.blocks@.len() > old(self).chain.entries@.len() && exit_flag.stop ==> r
                == Err::<bool, IndexError>(
                IndexError::Interrupted { height: (old(self).chain.entries@.len() - 1) as u32 },
            ) && final(self).store == old(self).store && final(self).chain == old(self).chain
                && final(self).is_ready == old(self).is_ready && final(self).flush_needed == old(self).flush_needed),
            (daemon.blocks@.len() > old(self).chain.entries@.len() && !exit_flag.stop ==> r
                == Ok::<bool, IndexError>(false) && {
                let lo = old(self).chain.entries@.len() as int;
                let hi = daemon.blocks@.len() as int;
                &&& final(self).chain.entries@.len() == hi
                &&& final(self).chain.entries@.take(lo) == old(self).chain.entries@
                &&& forall|h: int|
                    lo <= h < hi ==> (#[trigger] final(self).chain.entries@[h]).hash@
                        == daemon.blocks@[h].hash@
                &&& final(self).store.funding@.to_multiset() == old(self).store.funding@.to_multiset().add(range_funding_rows(*daemon, lo, hi).to_multiset())
                &&& final(self).store.spending@.to_multiset() == old(self).store.spending@.to_multiset().add(
                    range_spending_rows(*daemon, lo, hi).to_multiset(),
                )
                &&& final(self).store.txid@.to_multiset() == old(self).store.txid@.to_multiset().add(range_txid_rows(*daemon, lo, hi).to_multiset())
                &&& final(self).store.headers@.len() == hi - 1
                &&& final(self).store.headers@.take(lo - 1) == old(self).store.headers@.take(
                    lo - 1,
                )
                &&& forall|j: int|
                    lo - 1 <= j < hi - 1 ==> (#[trigger] final(self).store.headers@[j]).hash@
                        == daemon.blocks@[j + 1].hash@ && final(self).store.headers@[j].header@
                        == daemon.blocks@[j + 1].header@
                &&& (final(self).store.tip matches Some(t) && t@ == daemon.blocks@[hi
                    - 1].hash@)
                &&& final(self).store.tweaks == old(self).store.tweaks
                &&& final(self).store.sp_tip == old(self).store.sp_tip
                &&& final(self).store.flush_count == old(self).store.flush_count
                &&& final(self).flush_needed
                &&& final(self).is_ready == old(self).is_ready
                &&& final(self).chain.entries@.len() == final(self).store.headers@.len() + 1
            }),
    {
        let new_headers = daemon.get_new_headers(&self.chain);
        if new_headers.len() == 0 {
            if self.compact_on_sync && self.flush_needed {
                self.store.flush();
                self.flush_needed = false;
            }
            self.is_ready = true;
            return Ok(true);
        }
        let total = new_headers.len();
        let ghost lo = self.chain.entries@.len() as int;
        proof {
            assert(range_funding_rows(*daemon, lo, lo) =~= Seq::<HashPrefixRow>::empty());
            assert(range_spending_rows(*daemon, lo, lo) =~= Seq::<HashPrefixRow>::empty());
            assert(range_txid_rows(*daemon, lo, lo) =~= Seq::<HashPrefixRow>::empty());
            lemma_multiset_add_empty(
                self.store.funding@.to_multiset(),
                range_funding_rows(*daemon, lo, lo),
            );
            lemma_multiset_add_empty(
                self.store.spending@.to_multiset(),
                range_spending_rows(*daemon, lo, lo),
            );
            lemma_multiset_add_empty(
                self.store.txid@.to_multiset(),
                range_txid_rows(*daemon, lo, lo),
            );
            assert(self.store.headers@.take(lo - 1) =~= old(self).store.headers@.take(lo - 1));
        }
        let mut start: usize = 0;
        while start < total
            invariant
                old(self).wf(),
                daemon.wf(),
                start > 0 ==> !exit_flag.stop,
                total == new_headers@.len(),
                lo == old(self).chain.entries@.len() as int,
                lo + total == daemon.blocks@.len(),
                lo <= old(self).store.headers@.len() + 1,
                old(self).batch_size >= 1,
                forall|k: int|
                    0 <= k < total ==> (#[trigger] new_headers@[k]).height == lo + k
                        && new_headers@[k].hash@ == daemon.blocks@[lo + k].hash@
                        && new_headers@[k].wf(),
                0 <= start <= total,
                self.chain == old(self).chain,
                self.batch_size == old(self).batch_size,
                self.lookup_limit == old(self).lookup_limit,
                self.is_ready == old(self).is_ready,
                self.flush_needed == old(self).flush_needed,
                self.compact_on_sync == old(self).compact_on_sync,
                self.wf(),
                self.store.funding@.to_multiset() == old(self).store.funding@.to_multiset().add(
                    range_funding_rows(*daemon, lo, lo + start).to_multiset(),
                ),
                self.store.spending@.to_multiset() == old(self).store.spending@.to_multiset().add(
                    range_spending_rows(*daemon, lo, lo + start).to_multiset(),
                ),
                self.store.txid@.to_multiset() == old(self).store.txid@.to_multiset().add(
                    range_txid_rows(*daemon, lo, lo + start).to_multiset(),
                ),
                start > 0 ==> self.store.headers@.len() == lo - 1 + start,
                self.store.headers@.take(lo - 1) == old(self).store.headers@.take(lo - 1),
                forall|j: int|
                    lo - 1 <= j < lo - 1 + start ==> (#[trigger] self.store.headers@[j]).hash@
                        == daemon.blocks@[j + 1].hash@ && self.store.headers@[j].header@
                        == daemon.blocks@[j + 1].header@,
                start > 0 ==> (self.store.tip matches Some(t) && t@ == daemon.blocks@[lo + start
                    - 1].hash@),
                start == 0 ==> self.store == old(self).store,
                self.store.tweaks == old(self).store.tweaks,
                self.store.sp_tip == old(self).store.sp_tip,
                self.store.flush_count == old(self).store.flush_count,
            decreases total - start,
        {
            if exit_flag.poll() {
                let next = new_headers.get(start).unwrap().height;
                return Err(IndexError::Interrupted { height: next - 1 });
            }
            let end = if self.batch_size < total - start {
                start + self.batch_size
            } else {
                total
            };
            let ghost pre = *self;
            match self.sync_blocks(daemon, &new_headers, start, end, false) {
                Ok(()) => {},
                Err(err) => {
                    return Err(err);
                },
            }
            proof {
                lemma_range_split(*daemon, lo, lo + start, lo + end);
                lemma_multiset_add_assoc(
                    old(self).store.funding@.to_multiset(),
                    range_funding_rows(*daemon, lo, lo + start),
                    range_funding_rows(*daemon, lo + start, lo + end),
                );
                lemma_multiset_add_assoc(
                    old(self).store.spending@.to_multiset(),
                    range_spending_rows(*daemon, lo, lo + start),
                    range_spending_rows(*daemon, lo + start, lo + end),
                );
                lemma_multiset_add_assoc(
                    old(self).store.txid@.to_multiset(),
                    range_txid_rows(*daemon, lo, lo + start),
                    range_txid_rows(*daemon, lo + start, lo + end),
                );
                assert(self.store.headers@.take(lo - 1) =~= pre.store.headers@.take(lo - 1));
                assert forall|j: int| lo - 1 <= j < lo - 1 + end implies (
                #[trigger] self.store.headers@[j]).hash@ == daemon.blocks@[j + 1].hash@
                    && self.store.headers@[j].header@ == daemon.blocks@[j + 1].header@ by {
                    if j < lo - 1 + start {
                        assert(self.store.headers@.take(lo + start - 1)[j]
                            == self.store.headers@[j]);
                        assert(pre.store.headers@.take(lo + start - 1)[j]
                            == pre.store.headers@[j]);
                    }
                }
            }
            start = end;
        }
        self.chain.update(&new_headers);
        self.stats.observe_chain(&self.chain);
        self.flush_needed = true;
        proof {
            assert(self.chain.entries@.take(lo) =~= old(self).chain.entries@);
        }
        Ok(false)
    }

    /// One silent-payments sync round: resume from the persisted bookmark
    /// (or the activation floor), scan at most one window of already
    /// chain-confirmed blocks strictly below the tip through the
    /// silent-payments visitor in cancellable chunks, and report whether the
    /// cursor caught up with the standard pass (triggering, once, a full
    /// compaction). A bookmark that no longer resolves to a chain position is
    /// a violated trust invariant.
    pub fn silent_payments_sync(&mut self, daemon: &Daemon, exit_flag: &ExitFlag) -> (r: Result<
        bool,
        IndexError,
    >)
        requires
            old(self).wf(),
            daemon.wf(),
            old(self).store.flush_count < u64::MAX,
            daemon.blocks@.len() >= old(self).chain.entries@.len(),
            forall|h: int|
                0 <= h < old(self).chain.entries@.len() ==> (
                #[trigger] old(self).chain.entries@[h]).hash@ == daemon.blocks@[h].hash@,
        ensures
            final(self).wf(),
            final(self).chain == old(self).chain,
            final(self).batch_size == old(self).batch_size,
            final(self).lookup_limit == old(self).lookup_limit,
            final(self).store.funding == old(self).store.funding,
            final(self).store.spending == old(self).store.spending,
            final(self).store.txid == old(self).store.txid,
            final(self).store.headers == old(self).store.headers,
            final(self).store.tip == old(self).store.tip,
            (r == Ok::<bool, IndexError>(true) ==> final(self).is_ready && !final(self).flush_needed && final(self).store.tweaks == old(self).store.tweaks && final(self).store.sp_tip == old(self).store.sp_tip && final(self).store.flush_count == old(self).store.flush_count + (if old(self).flush_needed {
                1int
            } else {
                0int
            })),
            (r == Ok::<bool, IndexError>(false) ==> final(self).flush_needed && final(self).is_ready == old(self).is_ready && final(self).store.tweaks@.len() > old(self).store.tweaks@.len() && final(self).store.flush_count == old(self).store.flush_count),
            (r matches Err(e) ==> !(e matches IndexError::TooManyResults { .. }) && final(self).is_ready
                == old(self).is_ready && final(self).flush_needed == old(self).flush_needed
                && final(self).store.flush_count == old(self).store.flush_count),
            final(self).compact_on_sync == old(self).compact_on_sync,
            (r == Err::<bool, IndexError>(IndexError::BadTip) <==> sp_resume_height(
                old(self).store,
                old(self).chain,
            ) is None),
            (r == Err::<bool, IndexError>(IndexError::BadTip) ==> final(self).store == old(self).store),
            (sp_resume_height(old(self).store, old(self).chain) matches Some(st) ==> {
                let en = sp_window_end(st, old(self).chain);
                &&& (st >= en ==> r == Ok::<bool, IndexError>(true))
                &&& (st < en && exit_flag.stop ==> r == Err::<bool, IndexError>(
                    IndexError::Interrupted { height: (st - 1) as u32 },
                ) && final(self).store == old(self).store)
                &&& (st < en && !exit_flag.stop && blocks_scan_ok(
                    *daemon,
                    old(self).store.spending@,
                    st,
                    en,
                ) ==> r == Ok::<bool, IndexError>(false))
                &&& (r == Ok::<bool, IndexError>(false) ==> {
                    &&& final(self).store.tweaks.deep_view() == old(self).store.tweaks.deep_view()
                        + sp_chunk_records(
                        *daemon,
                        old(self).store.spending@,
                        st,
                        en,
                        old(self).batch_size as int,
                    )
                    &&& (final(self).store.sp_tip matches Some(t) && t@ == daemon.blocks@[en
                        - 1].hash@)
                })
            }),
    {
        let start: u32;
        let bookmark = self.store.last_sp();
        match bookmark {
            Some(t) => {
                match self.chain.get_block_height(&t) {
                    Some(h) => {
                        start = h + 1;
                    },
                    None => {
                        proof {
                            assert(sp_resume_height(old(self).store, old(self).chain) is None);
                        }
                        return Err(IndexError::BadTip);
                    },
                }
            },
            None => {
                start = SP_ACTIVATION_HEIGHT;
            },
        }
        let ghost st = start as int;
        proof {
            assert(sp_resume_height(old(self).store, old(self).chain) == Some(st));
            assert(st >= 1);
        }
        let tip_height = self.chain.height();
        let cand: u64 = start as u64 + SP_WINDOW as u64;
        let end: u32 = if cand < tip_height as u64 {
            (cand as u32)
        } else {
            tip_height
        };
        let ghost en = end as int;
        proof {
            assert(en == sp_window_end(st, old(self).chain));
        }
        if start >= end {
            if self.flush_needed {
                self.store.flush();
                self.flush_needed = false;
            }
            self.is_ready = true;
            return Ok(true);
        }
        let mut sp_headers: Vec<NewHeader> = Vec::new();
        let mut h: u32 = start;
        while h < end
            invariant
                self.wf(),
                *self == *old(self),
                daemon.wf(),
                daemon.blocks@.len() >= self.chain.entries@.len(),
                forall|q: int|
                    0 <= q < self.chain.entries@.len() ==> (
                    #[trigger] self.chain.entries@[q]).hash@ == daemon.blocks@[q].hash@,
                start <= h <= end,
                (end as int) < self.chain.entries@.len(),
                sp_headers@.len() == h - start,
                forall|k: int|
                    0 <= k < sp_headers@.len() ==> (#[trigger] sp_headers@[k]).height == start
                        + k && sp_headers@[k].hash@ == daemon.blocks@[start + k].hash@
                        && sp_headers@[k].wf(),
            decreases end - h,
        {
            let hash = match self.chain.get_block_hash(h) {
                Some(x) => x,
                None => {
                    proof {
                        assert(false);
                    }
                    return Err(IndexError::BadTip);
                },
            };
            let header = match self.chain.get_block_header(h) {
                Some(x) => x,
                None => {
                    proof {
                        assert(false);
                    }
                    return Err(IndexError::BadTip);
                },
            };
            sp_headers.push(NewHeader { hash, header, height: h });
            h += 1;
        }
        let total = sp_headers.len();
        let mut pos: usize = 0;
        while pos < total
            invariant
                old(self).wf(),
                daemon.wf(),
                total == sp_headers@.len(),
                total == end - start,
                start < end,
                st == start as int,
                st >= 1,
                en == end as int,
                en == st + total,
                en == sp_window_end(st, old(self).chain),
                sp_resume_height(old(self).store, old(self).chain) == Some(st),
                pos > 0 ==> !exit_flag.stop,
                forall|k: int|
                    0 <= k < sp_headers@.len() ==> (#[trigger] sp_headers@[k]).height == start
                        + k && sp_headers@[k].hash@ == daemon.blocks@[start + k].hash@
                        && (sp_headers@[k].height as int) < daemon.blocks@.len(),
                0 <= pos <= total,
                self.wf(),
                self.chain == old(self).chain,
                self.batch_size == old(self).batch_size,
                self.lookup_limit == old(self).lookup_limit,
                self.is_ready == old(self).is_ready,
                self.flush_needed == old(self).flush_needed,
                self.store.funding == old(self).store.funding,
                self.store.spending == old(self).store.spending,
                self.store.txid == old(self).store.txid,
                self.store.headers == old(self).store.headers,
                self.store.tip == old(self).store.tip,
                self.store.flush_count == old(self).store.flush_count,
                self.compact_on_sync == old(self).compact_on_sync,
                old(self).store.tweaks.deep_view() + sp_chunk_records(
                    *daemon,
                    old(self).store.spending@,
                    st,
                    en,
                    old(self).batch_size as int,
                ) == self.store.tweaks.deep_view() + sp_chunk_records(
                    *daemon,
                    old(self).store.spending@,
                    st + pos,
                    en,
                    old(self).batch_size as int,
                ),
                pos > 0 ==> self.store.tweaks@.len() > old(self).store.tweaks@.len(),
                pos > 0 ==> (self.store.sp_tip matches Some(t) && t@ == daemon.blocks@[st + pos
                    - 1].hash@),
                pos == 0 ==> self.store == old(self).store,
            decreases total - pos,
        {
            if exit_flag.poll() {
                let next = sp_headers.get(pos).unwrap().height;
                return Err(IndexError::Interrupted { height: next - 1 });
            }
            let e2 = if self.batch_size < total - pos {
                pos + self.batch_size
            } else {
                total
            };
            let ghost pre = *self;
            match self.sync_blocks(daemon, &sp_headers, pos, e2, true) {
                Ok(()) => {
                    proof {
                        let ghost bs = old(self).batch_size as int;
                        let ghost sp = old(self).store.spending@;
                        let ghost payload = daemon.blocks@[st + e2 - 1].hash@ + block_tweaks(
                            *daemon,
                            sp,
                            daemon.blocks@[st + e2 - 1].block.txs@,
                        );
                        assert(sp_chunk_records(*daemon, sp, st + pos, en, bs) =~~= seq![payload]
                            + sp_chunk_records(*daemon, sp, st + e2, en, bs));
                        assert(self.store.tweaks.deep_view() =~~= pre.store.tweaks.deep_view()
                            + seq![payload]) by {
                            assert forall|q: int|
                                0 <= q < pre.store.tweaks.deep_view().len() implies
                                self.store.tweaks.deep_view()[q]
                                    == pre.store.tweaks.deep_view()[q] by {
                                assert(self.store.tweaks@.take(
                                    pre.store.tweaks@.len() as int,
                                )[q] == self.store.tweaks@[q]);
                            }
                        }
                        assert(pre.store.tweaks.deep_view() + (seq![payload] + sp_chunk_records(
                            *daemon,
                            sp,
                            st + e2,
                            en,
                            bs,
                        )) =~~= (pre.store.tweaks.deep_view() + seq![payload])
                            + sp_chunk_records(*daemon, sp, st + e2, en, bs));
                    }
                },
                Err(err) => {
                    proof {
                        if blocks_scan_ok(*daemon, old(self).store.spending@, st, en) {
                            assert forall|h2: int| st + pos <= h2 < st + e2 implies scan_ok(
                                *daemon,
                                old(self).store.spending@,
                                (#[trigger] daemon.blocks@[h2]).block.txs@,
                            ) by {}
                            assert(false);
                        }
                    }
                    return Err(err);
                },
            }
            pos = e2;
        }
        proof {
            assert(sp_chunk_records(
                *daemon,
                old(self).store.spending@,
                st + total,
                en,
                old(self).batch_size as int,
            ) =~~= Seq::<Seq<u8>>::empty());
            assert(self.store.tweaks.deep_view() + Seq::<Seq<u8>>::empty()
                =~~= self.store.tweaks.deep_view());
            assert(sp_chunk_records(
                *daemon,
                old(self).store.spending@,
                st,
                en,
                old(self).batch_size as int,
            ).len() >= 1);
        }
        self.flush_needed = true;
        Ok(false)
    }

    /// Block hashes of heights indexed for this txid, in row order.
    pub fn filter_by_txid(&self, txid: &Vec<u8>) -> (r: Vec<Vec<u8>>)
        requires
            txid@.len() == 32,
        ensures
            r.deep_view() == query_result(self.chain, self.store.txid@, prefix_of(txid@)),
    {
        let rows = self.store.iter_txid(TxidRow::scan_prefix(txid));
        resolve_rows(&self.chain, &rows)
    }

    /// Block hashes of heights with an output paying this script hash.
    pub fn filter_by_funding(&self, scripthash: &Vec<u8>) -> (r: Vec<Vec<u8>>)
        requires
            scripthash@.len() == 32,
        ensures
            r.deep_view() == query_result(
                self.chain,
                self.store.funding@,
                prefix_of(scripthash@),
            ),
    {
        let rows = self.store.iter_funding(ScriptHashRow::scan_prefix(scripthash));
        resolve_rows(&self.chain, &rows)
    }

    /// Block hashes of heights spending this outpoint.
    pub fn filter_by_spending(&self, prev_txid: &Vec<u8>, prev_vout: u32) -> (r: Vec<Vec<u8>>)
        requires
            prev_txid@.len() == 32,
        ensures
            r.deep_view() == query_result(
                self.chain,
                self.store.spending@,
                spending_prefix_of(prev_txid@, prev_vout),
            ),
    {
        let rows = self.store.iter_spending(SpendingPrefixRow::scan_prefix(prev_txid, prev_vout));
        resolve_rows(&self.chain, &rows)
    }
}

/// Splitting a height range splits each family's rows at the same point:
/// the rows of a whole range are the rows of its chunks, concatenated. This
/// is the chunking invariant: any chunk size yields the same row set.
pub proof fn lemma_range_split(d: Daemon, lo: int, mid: int, hi: int)
    requires
        lo <= mid <= hi,
    ensures
        range_funding_rows(d, lo, hi) == range_funding_rows(d, lo, mid) + range_funding_rows(
            d,
            mid,
            hi,
        ),
        range_spending_rows(d, lo, hi) == range_spending_rows(d, lo, mid) + range_spending_rows(
            d,
            mid,
            hi,
        ),
        range_txid_rows(d, lo, hi) == range_txid_rows(d, lo, mid) + range_txid_rows(d, mid, hi),
    decreases hi - mid,
{
    if hi == mid {
        assert(range_funding_rows(d, lo, hi) =~= range_funding_rows(d, lo, mid)
            + range_funding_rows(d, mid, hi));
        assert(range_spending_rows(d, lo, hi) =~= range_spending_rows(d, lo, mid)
            + range_spending_rows(d, mid, hi));
        assert(range_txid_rows(d, lo, hi) =~= range_txid_rows(d, lo, mid) + range_txid_rows(
            d,
            mid,
            hi,
        ));
    } else {
        lemma_range_split(d, lo, mid, hi - 1);
        assert(range_funding_rows(d, lo, hi) =~= range_funding_rows(d, lo, mid)
            + range_funding_rows(d, mid, hi));
        assert(range_spending_rows(d, lo, hi) =~= range_spending_rows(d, lo, mid)
            + range_spending_rows(d, mid, hi));
        assert(range_txid_rows(d, lo, hi) =~= range_txid_rows(d, lo, mid) + range_txid_rows(
            d,
            mid,
            hi,
        ));
    }
}

/// Adding an empty sequence's rows to a multiset changes nothing.
pub proof fn lemma_multiset_add_empty(m: Multiset<HashPrefixRow>, s: Seq<HashPrefixRow>)
    requires
        s.len() == 0,
    ensures
        m.add(s.to_multiset()) == m,
{
    broadcast use vstd::multiset::group_multiset_axioms;

    s.to_multiset_ensures();
    assert forall|x: HashPrefixRow| m.add(s.to_multiset()).count(x) == m.count(x) by {
        assert(!s.contains(x));
        assert(s.to_multiset().count(x) == 0);
    }
    assert(m.add(s.to_multiset()) =~= m);
}

/// Adding a concatenation's rows to a multiset adds each part's rows.
pub proof fn lemma_multiset_add_assoc(
    m: Multiset<HashPrefixRow>,
    a: Seq<HashPrefixRow>,
    b: Seq<HashPrefixRow>,
)
    ensures
        m.add((a + b).to_multiset()) == m.add(a.to_multiset()).add(b.to_multiset()),
{
    broadcast use vstd::multiset::group_multiset_axioms;

    lemma_multiset_commutative(a, b);
    assert(m.add((a + b).to_multiset()) =~= m.add(a.to_multiset()).add(b.to_multiset()));
}

/// Resolve each row's height through the chain view, dropping heights the
/// chain no longer has.
fn resolve_rows(chain: &Chain, rows: &Vec<HashPrefixRow>) -> (r: Vec<Vec<u8>>)
    ensures
        r.deep_view() == resolve_heights(*chain, rows@),
{
    let n = rows.len();
    let mut out: Vec<Vec<u8>> = Vec::new();
    let mut i: usize = 0;
    while i < n
        invariant
            n == rows@.len(),
            0 <= i <= n,
            out.deep_view() == resolve_heights(*chain, rows@.take(i as int)),
        decreases n - i,
    {
        let row = *rows.get(i).unwrap();
        let ghost pre = out.deep_view();
        match chain.get_block_hash(row.height) {
            Some(h) => {
                out.push(h);
                proof {
                    assert(out.deep_view() =~~= pre.push(out@.last()@));
                }
            },
            None => {},
        }
        proof {
            assert(rows@.take(i + 1 as int).drop_last() =~= rows@.take(i as int));
            assert(rows@.take(i + 1 as int).last() == rows@[i as int]);
            assert(out.deep_view() =~~= resolve_heights(*chain, rows@.take(i + 1 as int)));
        }
        i += 1;
    }
    proof {
        assert(rows@.take(n as int) =~= rows@);
    }
    out
}

} // verus!
