//! Fixed-width binary rows for the three index families (by txid, by funding
//! script hash, by spending outpoint) and the header row family. A family row
//! is an 8-byte big-endian key prefix followed by a 4-byte big-endian height;
//! its persisted byte order therefore equals (prefix, height) order.
use vstd::prelude::*;
use vstd::arithmetic::div_mod::lemma_mod_breakdown;

verus! {

/// 256 to the n-th power.
pub open spec fn pow256(n: nat) -> nat
    decreases n,
{
    if n == 0 {
        1
    } else {
        256 * pow256((n - 1) as nat)
    }
}

/// Big-endian value of a byte string.
pub open spec fn be_val(s: Seq<u8>) -> nat
    decreases s.len(),
{
    if s.len() == 0 {
        0nat
    } else {
        (be_val(s.drop_last()) * 256 + s.last()) as nat
    }
}

/// Big-endian bytes of `v`, truncated to the `n` low-order bytes.
pub open spec fn be_bytes(v: nat, n: nat) -> Seq<u8>
    decreases n,
{
    if n == 0 {
        Seq::empty()
    } else {
        be_bytes(v / 256, (n - 1) as nat).push((v % 256) as u8)
    }
}

pub proof fn lemma_be_val_bound(s: Seq<u8>)
    ensures
        be_val(s) < pow256(s.len()),
    decreases s.len(),
{
    if s.len() > 0 {
        lemma_be_val_bound(s.drop_last());
    }
}

pub proof fn lemma_be_bytes_len(v: nat, n: nat)
    ensures
        be_bytes(v, n).len() == n,
    decreases n,
{
    if n > 0 {
        lemma_be_bytes_len(v / 256, (n - 1) as nat);
    }
}

/// Decoding the big-endian bytes of `v` gives back `v`, modulo the width.
pub proof fn lemma_be_round_trip(v: nat, n: nat)
    ensures
        be_val(be_bytes(v, n)) == v % pow256(n),
    decreases n,
{
    if n == 0 {
        assert(v % 1nat == 0nat) by (nonlinear_arith);
    } else {
        let m = (n - 1) as nat;
        lemma_be_round_trip(v / 256, m);
        lemma_be_bytes_len(v / 256, m);
        assert(be_bytes(v, n).drop_last() =~= be_bytes(v / 256, m));
        lemma_pow256_monotone(0, m);
        lemma_mod_breakdown(v as int, 256int, pow256(m) as int);
        assert(256 * pow256(m) == pow256(n));
    }
}

pub proof fn lemma_pow256_8()
    ensures
        pow256(8) == 0x1_0000_0000_0000_0000,
        pow256(4) == 0x1_0000_0000,
        pow256(7) == 0x100_0000_0000_0000,
{
    assert(pow256(0) == 1);
    assert(pow256(1) == 256);
    assert(pow256(2) == 0x1_0000);
    assert(pow256(3) == 0x100_0000);
    assert(pow256(4) == 0x1_0000_0000);
    assert(pow256(5) == 0x100_0000_0000);
    assert(pow256(6) == 0x1_0000_0000_0000);
    assert(pow256(7) == 0x100_0000_0000_0000);
    assert(pow256(8) == 0x1_0000_0000_0000_0000);
}

/// The 8-byte big-endian key prefix of a 32-byte hash, as an integer.
pub open spec fn prefix_of(key: Seq<u8>) -> u64 {
    be_val(key.take(8)) as u64
}

/// Exec computation of `prefix_of`.
pub fn hash_prefix(key: &Vec<u8>) -> (r: u64)
    requires
        key@.len() >= 8,
    ensures
        r == prefix_of(key@),
        r as nat == be_val(key@.take(8)),
{
    let mut acc: u64 = 0;
    let mut k: usize = 0;
    while k < 8
        invariant
            key@.len() >= 8,
            0 <= k <= 8,
            acc as nat == be_val(key@.take(k as int)),
        decreases 8 - k,
    {
        proof {
            lemma_be_val_bound(key@.take(k as int));
            lemma_pow256_8();
            lemma_pow256_monotone(k as nat, 7);
        }
        let b = *key.get(k).unwrap();
        acc = acc * 256 + (b as u64);
        proof {
            assert(key@.take(k + 1 as int).drop_last() =~= key@.take(k as int));
            assert(key@.take(k + 1 as int).last() == key@[k as int]);
        }
        k += 1;
    }
    proof {
        lemma_be_val_bound(key@.take(8));
        lemma_pow256_8();
    }
    acc
}

pub proof fn lemma_pow256_monotone(a: nat, b: nat)
    requires
        a <= b,
    ensures
        pow256(a) <= pow256(b),
    decreases b,
{
    if a < b {
        lemma_pow256_monotone(a, (b - 1) as nat);
        assert(pow256(b) == 256 * pow256((b - 1) as nat));
        assert(pow256((b - 1) as nat) <= 256 * pow256((b - 1) as nat)) by (nonlinear_arith)
            requires pow256((b - 1) as nat) >= 0;
    }
}

/// One index row: key prefix plus the block height that references the key.
#[derive(Clone, Copy, Debug, PartialEq, Eq, Structural)]
pub struct HashPrefixRow {
    pub prefix: u64,
    pub height: u32,
}

/// Row order: ascending key prefix, then ascending height.
pub open spec fn row_le(a: HashPrefixRow, b: HashPrefixRow) -> bool {
    a.prefix < b.prefix || (a.prefix == b.prefix && a.height <= b.height)
}

/// Non-decreasing in (prefix, height).
pub open spec fn rows_sorted(s: Seq<HashPrefixRow>) -> bool {
    forall|i: int, j: int| 0 <= i <= j < s.len() ==> row_le(s[i], s[j])
}

/// Exec comparison mirroring `row_le`.
pub fn row_le_exec(a: &HashPrefixRow, b: &HashPrefixRow) -> (r: bool)
    ensures
        r == row_le(*a, *b),
{
    a.prefix < b.prefix || (a.prefix == b.prefix && a.height <= b.height)
}

impl HashPrefixRow {
    /// The persisted form: 8 prefix bytes then 4 height bytes, big-endian.
    pub open spec fn spec_to_db_row(self) -> Seq<u8> {
        be_bytes(self.prefix as nat, 8) + be_bytes(self.height as nat, 4)
    }

    /// Serialize the row for persistence.
    pub fn to_db_row(&self) -> (r: Vec<u8>)
        ensures
            r@ == self.spec_to_db_row(),
            r@.len() == 12,
    {
        let mut out: Vec<u8> = Vec::new();
        push_be(&mut out, self.prefix, 8);
        push_be(&mut out, self.height as u64, 4);
        proof {
            lemma_be_bytes_len(self.prefix as nat, 8);
            lemma_be_bytes_len(self.height as nat, 4);
            lemma_pow256_8();
            lemma_be_round_trip(self.prefix as nat, 8);
            lemma_be_round_trip(self.height as nat, 4);
        }
        out
    }

    /// Decode the height suffix of a persisted row. Malformed (short) row
    /// bytes are a decode failure: the store only ever holds rows this codec
    /// wrote, so callers treat `None` as corruption, never a soft failure.
    pub fn from_db_row(row: &Vec<u8>) -> (r: Option<HashPrefixRow>)
        ensures
            row@.len() == 12 ==> (r matches Some(p) && p.prefix as nat == be_val(row@.take(8))
                && p.height as nat == be_val(row@.subrange(8, 12))),
            row@.len() != 12 ==> r is None,
    {
        if row.len() != 12 {
            return None;
        }
        let prefix = hash_prefix(row);
        let mut acc: u64 = 0;
        let mut k: usize = 8;
        while k < 12
            invariant
                row@.len() == 12,
                8 <= k <= 12,
                acc as nat == be_val(row@.subrange(8, k as int)),
        decreases 12 - k,
        {
            proof {
                lemma_be_val_bound(row@.subrange(8, k as int));
                lemma_pow256_8();
                lemma_pow256_monotone((k - 8) as nat, 3);
            }
            let b = *row.get(k).unwrap();
            acc = acc * 256 + (b as u64);
            proof {
                assert(row@.subrange(8, k + 1 as int).drop_last() =~= row@.subrange(
                    8,
                    k as int,
                ));
                assert(row@.subrange(8, k + 1 as int).last() == row@[k as int]);
            }
            k += 1;
        }
        proof {
            lemma_be_val_bound(row@.subrange(8, 12));
            lemma_pow256_8();
        }
        Some(HashPrefixRow { prefix, height: acc as u32 })
    }
}

/// Serializing a row and decoding it gives back the same prefix and height.
pub proof fn lemma_row_round_trip(r: HashPrefixRow)
    ensures
        r.spec_to_db_row().len() == 12,
        be_val(r.spec_to_db_row().take(8)) == r.prefix as nat,
        be_val(r.spec_to_db_row().subrange(8, 12)) == r.height as nat,
{
    lemma_be_bytes_len(r.prefix as nat, 8);
    lemma_be_bytes_len(r.height as nat, 4);
    assert(r.spec_to_db_row().take(8) =~= be_bytes(r.prefix as nat, 8));
    assert(r.spec_to_db_row().subrange(8, 12) =~= be_bytes(r.height as nat, 4));
    lemma_be_round_trip(r.prefix as nat, 8);
    lemma_be_round_trip(r.height as nat, 4);
    lemma_pow256_8();
}

/// Append the `n` low-order bytes of `v`, big-endian.
fn push_be(out: &mut Vec<u8>, v: u64, n: usize)
    requires
        n <= 8,
    ensures
        final(out)@ == old(out)@ + be_bytes(v as nat, n as nat),
{
    let mut k: usize = n;
    let mut rest: u64 = v;
    let mut tail: Vec<u8> = Vec::new();
    while k > 0
        invariant
            k <= n <= 8,
            be_bytes(v as nat, n as nat) == be_bytes(rest as nat, k as nat) + tail@,
        decreases k,
    {
        let b = (rest % 256) as u8;
        proof {
            assert(be_bytes(rest as nat, k as nat) =~= be_bytes(
                (rest / 256) as nat,
                (k - 1) as nat,
            ).push((rest as nat % 256) as u8));
            assert(be_bytes((rest / 256) as nat, (k - 1) as nat).push(b) + tail@
                =~= be_bytes((rest / 256) as nat, (k - 1) as nat) + (seq![b] + tail@));
            assert(seq![b] + tail@ =~= tail@.insert(0, b));
        }
        tail.insert(0, b);
        rest = rest / 256;
        k -= 1;
    }
    proof {
        assert(be_bytes(rest as nat, 0) =~= Seq::<u8>::empty());
        assert(be_bytes(v as nat, n as nat) =~= tail@);
    }
    let m = tail.len();
    let mut j: usize = 0;
    while j < m
        invariant
            m == tail@.len(),
            0 <= j <= m,
            out@ == old(out)@ + tail@.take(j as int),
        decreases m - j,
    {
        out.push(*tail.get(j).unwrap());
        proof {
            assert(tail@.take(j + 1 as int) =~= tail@.take(j as int).push(tail@[j as int]));
            assert(old(out)@ + tail@.take(j + 1 as int) =~= (old(out)@ + tail@.take(
                j as int,
            )).push(tail@[j as int]));
        }
        j += 1;
    }
    proof {
        assert(tail@.take(m as int) =~= tail@);
    }
}

/// The spending-family key prefix of an outpoint: the previous txid's 8-byte
/// prefix, wrapping-added with the output index.
pub open spec fn spending_prefix_of(txid: Seq<u8>, vout: u32) -> u64 {
    if be_val(txid.take(8)) + vout > u64::MAX {
        (be_val(txid.take(8)) + vout - 0x1_0000_0000_0000_0000) as u64
    } else {
        (be_val(txid.take(8)) + vout) as u64
    }
}

/// Builder for rows of the by-txid family.
pub struct TxidRow;

impl TxidRow {
    /// The row recording that a txid appears at `height`.
    pub fn row(txid: &Vec<u8>, height: u32) -> (r: HashPrefixRow)
        requires
            txid@.len() == 32,
        ensures
            r == (HashPrefixRow { prefix: prefix_of(txid@), height }),
    {
        HashPrefixRow { prefix: hash_prefix(txid), height }
    }

    /// The prefix matching every row for this txid, at any height.
    pub fn scan_prefix(txid: &Vec<u8>) -> (r: u64)
        requires
            txid@.len() == 32,
        ensures
            r == prefix_of(txid@),
    {
        hash_prefix(txid)
    }
}

/// Builder for rows of the funding family, keyed by a script's hash.
pub struct ScriptHashRow;

impl ScriptHashRow {
    /// The row recording that an output paying `scripthash` funds at `height`.
    pub fn row(scripthash: &Vec<u8>, height: u32) -> (r: HashPrefixRow)
        requires
            scripthash@.len() == 32,
        ensures
            r == (HashPrefixRow { prefix: prefix_of(scripthash@), height }),
    {
        HashPrefixRow { prefix: hash_prefix(scripthash), height }
    }

    /// The prefix matching every row for this script hash, at any height.
    pub fn scan_prefix(scripthash: &Vec<u8>) -> (r: u64)
        requires
            scripthash@.len() == 32,
        ensures
            r == prefix_of(scripthash@),
    {
        hash_prefix(scripthash)
    }
}

/// Builder for rows of the spending family, keyed by a previous outpoint.
pub struct SpendingPrefixRow;

impl SpendingPrefixRow {
    /// The row recording that an outpoint is spent at `height`.
    pub fn row(prev_txid: &Vec<u8>, prev_vout: u32, height: u32) -> (r: HashPrefixRow)
        requires
            prev_txid@.len() == 32,
        ensures
            r == (HashPrefixRow { prefix: spending_prefix_of(prev_txid@, prev_vout), height }),
    {
        HashPrefixRow { prefix: Self::scan_prefix(prev_txid, prev_vout), height }
    }

    /// The prefix matching every row for this outpoint, at any height.
    pub fn scan_prefix(prev_txid: &Vec<u8>, prev_vout: u32) -> (r: u64)
        requires
            prev_txid@.len() == 32,
        ensures
            r == spending_prefix_of(prev_txid@, prev_vout),
    {
        proof {
            lemma_be_val_bound(prev_txid@.take(8));
            lemma_pow256_8();
        }
        hash_prefix(prev_txid).wrapping_add(prev_vout as u64)
    }
}

/// One header record: the height it is keyed by, the block hash, and the
/// consensus-serialized header bytes.
pub struct HeaderRow {
    pub height: u32,
    pub hash: Vec<u8>,
    pub header: Vec<u8>,
}

impl HeaderRow {
    /// Well-formed: a 32-byte block hash.
    pub open spec fn wf(&self) -> bool {
        self.hash@.len() == 32
    }
}

} // verus!
