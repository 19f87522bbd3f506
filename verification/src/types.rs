//! Plain-value model of the consensus data the index reads: a block is a
//! header plus transactions, a transaction is its id plus inputs and outputs.
//! The surrounding process parses raw consensus bytes into these values; the
//! core only ever reads them.
use vstd::prelude::*;

verus! {

/// One transaction output: its locking script.
pub struct TxOutput {
    pub script_pubkey: Vec<u8>,
}

/// One transaction input: the previous output it spends, and the witness
/// material the silent-payments classifier reads.
pub struct TxInput {
    pub prev_txid: Vec<u8>,
    pub prev_vout: u32,
    pub script_sig: Vec<u8>,
    pub witness: Vec<Vec<u8>>,
}

/// One transaction, already resolved to its id.
pub struct Transaction {
    pub txid: Vec<u8>,
    pub inputs: Vec<TxInput>,
    pub outputs: Vec<TxOutput>,
}

/// One block: its consensus-serialized header and its transactions.
pub struct Block {
    pub header: Vec<u8>,
    pub txs: Vec<Transaction>,
}

impl TxInput {
    /// Well-formed: the previous txid is a 32-byte hash.
    pub open spec fn wf(&self) -> bool {
        self.prev_txid@.len() == 32
    }

    /// The null previous-output marker that only a coinbase input carries.
    pub open spec fn prevout_null(&self) -> bool {
        &&& self.prev_vout == 0xffff_ffffu32
        &&& forall|k: int| 0 <= k < self.prev_txid@.len() ==> self.prev_txid@[k] == 0u8
    }

    /// Exec test for the null/coinbase previous-output marker.
    pub fn is_null_prevout(&self) -> (r: bool)
        ensures
            r == self.prevout_null(),
    {
        if self.prev_vout != 0xffff_ffffu32 {
            return false;
        }
        let n = self.prev_txid.len();
        let mut k: usize = 0;
        while k < n
            invariant
                n == self.prev_txid@.len(),
                0 <= k <= n,
                forall|j: int| 0 <= j < k ==> self.prev_txid@[j] == 0u8,
            decreases n - k,
        {
            if *self.prev_txid.get(k).unwrap() != 0u8 {
                return false;
            }
            k += 1;
        }
        true
    }
}

impl Transaction {
    /// Well-formed: 32-byte txid, well-formed inputs, and output positions
    /// that fit an outpoint's index field.
    pub open spec fn wf(&self) -> bool {
        &&& self.txid@.len() == 32
        &&& self.outputs@.len() < 0x1_0000_0000
        &&& forall|i: int| 0 <= i < self.inputs@.len() ==> (#[trigger] self.inputs@[i]).wf()
    }

    /// A coinbase transaction: exactly one input, carrying the null marker.
    pub open spec fn spec_is_coinbase(&self) -> bool {
        self.inputs@.len() == 1 && self.inputs@[0].prevout_null()
    }

    /// Exec test for a coinbase transaction.
    pub fn is_coinbase(&self) -> (r: bool)
        ensures
            r == self.spec_is_coinbase(),
    {
        self.inputs.len() == 1 && self.inputs[0].is_null_prevout()
    }
}

impl Block {
    /// Well-formed: every transaction is.
    pub open spec fn wf(&self) -> bool {
        forall|i: int| 0 <= i < self.txs@.len() ==> (#[trigger] self.txs@[i]).wf()
    }
}

/// Byte-wise equality of two byte vectors.
pub fn bytes_eq(a: &Vec<u8>, b: &Vec<u8>) -> (r: bool)
    ensures
        r == (a@ == b@),
{
    if a.len() != b.len() {
        assert(a@.len() != b@.len());
        return false;
    }
    let n = a.len();
    let mut k: usize = 0;
    while k < n
        invariant
            n == a@.len(),
            n == b@.len(),
            0 <= k <= n,
            forall|j: int| 0 <= j < k ==> a@[j] == b@[j],
        decreases n - k,
    {
        if *a.get(k).unwrap() != *b.get(k).unwrap() {
            return false;
        }
        k += 1;
    }
    assert(a@ =~= b@);
    true
}

/// Copy of a byte vector, pinned to the same view.
pub fn copy_bytes(a: &Vec<u8>) -> (r: Vec<u8>)
    ensures
        r@ == a@,
{
    let n = a.len();
    let mut out: Vec<u8> = Vec::new();
    let mut k: usize = 0;
    while k < n
        invariant
            n == a@.len(),
            0 <= k <= n,
            out@ == a@.take(k as int),
        decreases n - k,
    {
        out.push(*a.get(k).unwrap());
        assert(a@.take(k + 1 as int) =~= a@.take(k as int).push(a@[k as int]));
        k += 1;
    }
    assert(a@.take(n as int) =~= a@);
    out
}

/// Append `src`'s bytes to `dst`.
pub fn append_bytes(dst: &mut Vec<u8>, src: &Vec<u8>)
    ensures
        final(dst)@ == old(dst)@ + src@,
{
    let n = src.len();
    let ghost base = dst@;
    let mut k: usize = 0;
    while k < n
        invariant
            n == src@.len(),
            0 <= k <= n,
            dst@ == base + src@.take(k as int),
        decreases n - k,
    {
        dst.push(*src.get(k).unwrap());
        proof {
            assert(base + src@.take(k + 1 as int) =~= (base + src@.take(k as int)).push(
                src@[k as int],
            ));
        }
        k += 1;
    }
    proof {
        assert(src@.take(n as int) =~= src@);
    }
}

} // verus!
