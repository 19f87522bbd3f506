//! Plain-value model of the trusted full-node boundary: the blocks it can
//! serve, by height from genesis, and a transaction lookup pool for resolving
//! previous outputs. The surrounding process fills these from its node.
use vstd::prelude::*;
use crate::chain::{Chain, NewHeader};
use crate::types::{bytes_eq, copy_bytes, Block, Transaction};

verus! {

/// One block as the daemon serves it.
pub struct DaemonBlock {
    pub hash: Vec<u8>,
    pub header: Vec<u8>,
    pub block: Block,
}

/// The index into `txs` of the first transaction carrying `txid`.
pub open spec fn first_tx_match(txs: Seq<Transaction>, txid: Seq<u8>) -> Option<int>
    decreases txs.len(),
{
    if txs.len() == 0 {
        None
    } else if txs.first().txid@ == txid {
        Some(0int)
    } else {
        match first_tx_match(txs.drop_first(), txid) {
            None => None,
            Some(i) => Some(i + 1),
        }
    }
}

/// The daemon boundary.
pub struct Daemon {
    pub blocks: Vec<DaemonBlock>,
    pub txs: Vec<Transaction>,
}

impl Daemon {
    /// Well-formed: block `i` sits at height `i`, hashes are 32 bytes and
    /// unique, blocks and pooled transactions are well-formed.
    pub open spec fn wf(&self) -> bool {
        &&& self.blocks@.len() < 0xffff_fffe
        &&& forall|i: int|
            0 <= i < self.blocks@.len() ==> (#[trigger] self.blocks@[i]).hash@.len() == 32
                && self.blocks@[i].block.wf() && self.blocks@[i].block.header@
                == self.blocks@[i].header@
        &&& forall|i: int, j: int|
            0 <= i < j < self.blocks@.len() ==> (#[trigger] self.blocks@[i].hash@) != (
            #[trigger] self.blocks@[j].hash@)
        &&& forall|i: int| 0 <= i < self.txs@.len() ==> (#[trigger] self.txs@[i]).wf()
    }

    /// All headers strictly above the chain's tip, height-ascending; empty if
    /// the caller is already caught up.
    pub fn get_new_headers(&self, chain: &Chain) -> (r: Vec<NewHeader>)
        requires
            self.wf(),
            chain.wf(),
        ensures
            r@.len() == if self.blocks@.len() > chain.entries@.len() {
                self.blocks@.len() - chain.entries@.len()
            } else {
                0
            },
            forall|k: int|
                0 <= k < r@.len() ==> (#[trigger] r@[k]).height == chain.entries@.len() + k
                    && r@[k].hash@ == self.blocks@[chain.entries@.len() + k].hash@
                    && r@[k].header@ == self.blocks@[chain.entries@.len() + k].header@
                    && r@[k].wf(),
    {
        let mut out: Vec<NewHeader> = Vec::new();
        let start = chain.entries.len();
        let n = self.blocks.len();
        if start >= n {
            return out;
        }
        let mut h: usize = start;
        while h < n
            invariant
                self.wf(),
                n == self.blocks@.len(),
                n < 0xffff_fffe,
                start <= h <= n,
                out@.len() == h - start,
                forall|k: int|
                    0 <= k < out@.len() ==> (#[trigger] out@[k]).height == start + k
                        && out@[k].hash@ == self.blocks@[start + k].hash@ && out@[k].header@
                        == self.blocks@[start + k].header@ && out@[k].wf(),
            decreases n - h,
        {
            let b = self.blocks.get(h).unwrap();
            out.push(
                NewHeader { hash: copy_bytes(&b.hash), header: copy_bytes(&b.header), height: h
                    as u32 },
            );
            h += 1;
        }
        out
    }

    /// The position of the block carrying the given hash, if the daemon can
    /// serve it.
    pub fn find_block(&self, hash: &Vec<u8>) -> (r: Option<usize>)
        ensures
            (r matches Some(i) ==> (i as int) < self.blocks@.len() && self.blocks@[
                i as int
            ].hash@ == hash@),
            (r is None ==> forall|i: int|
                0 <= i < self.blocks@.len() ==> (#[trigger] self.blocks@[i]).hash@ != hash@),
    {
        let n = self.blocks.len();
        let mut i: usize = 0;
        while i < n
            invariant
                n == self.blocks@.len(),
                0 <= i <= n,
                forall|j: int| 0 <= j < i ==> (#[trigger] self.blocks@[j]).hash@ != hash@,
            decreases n - i,
        {
            if bytes_eq(&self.blocks.get(i).unwrap().hash, hash) {
                return Some(i);
            }
            i += 1;
        }
        None
    }

    /// Resolve a txid through the daemon's transaction pool: the position of
    /// the first match, if any.
    pub fn get_transaction(&self, txid: &Vec<u8>) -> (r: Option<usize>)
        ensures
            (r is None <==> first_tx_match(self.txs@, txid@) is None),
            (r matches Some(i) ==> first_tx_match(self.txs@, txid@) == Some(i as int) && (
            i as int) < self.txs@.len() && self.txs@[i as int].txid@ == txid@),
    {
        let n = self.txs.len();
        let mut i: usize = 0;
        while i < n
            invariant
                n == self.txs@.len(),
                0 <= i <= n,
                forall|j: int| 0 <= j < i ==> (#[trigger] self.txs@[j]).txid@ != txid@,
            decreases n - i,
        {
            if bytes_eq(&self.txs.get(i).unwrap().txid, txid) {
                proof {
                    lemma_first_tx_match(self.txs@, txid@, i as int);
                }
                return Some(i);
            }
            i += 1;
        }
        proof {
            lemma_first_tx_match(self.txs@, txid@, n as int);
        }
        None
    }
}

/// If nothing before `i` matches, the first match is `i` itself (when it
/// matches) or nothing (when `i` is past the end).
proof fn lemma_first_tx_match(txs: Seq<Transaction>, txid: Seq<u8>, i: int)
    requires
        0 <= i <= txs.len(),
        forall|j: int| 0 <= j < i ==> (#[trigger] txs[j]).txid@ != txid,
        i < txs.len() ==> txs[i].txid@ == txid,
    ensures
        first_tx_match(txs, txid) == if i < txs.len() {
            Some(i)
        } else {
            None::<int>
        },
    decreases txs.len(),
{
    if txs.len() > 0 {
        if i == 0 {
        } else {
            assert(txs.first().txid@ != txid);
            lemma_first_tx_match(txs.drop_first(), txid, i - 1);
        }
    }
}

} // verus!
