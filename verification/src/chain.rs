//! The reorg-aware in-memory chain view: block hash and header per height,
//! from genesis at height zero up to the current tip. Only its query contract
//! matters to the indexing core; heights with no current entry resolve to
//! nothing.
use vstd::prelude::*;
use crate::rows::HeaderRow;
use crate::store::{clone_header, header_eqv};
use crate::types::{bytes_eq, copy_bytes};
use crate::IndexError;

verus! {

/// A header newly reported by the daemon, at the height it will occupy.
pub struct NewHeader {
    pub hash: Vec<u8>,
    pub header: Vec<u8>,
    pub height: u32,
}

impl NewHeader {
    /// Well-formed: a 32-byte block hash.
    pub open spec fn wf(&self) -> bool {
        self.hash@.len() == 32
    }

    /// The height this header will occupy.
    pub fn height(&self) -> (r: u32)
        ensures
            r == self.height,
    {
        self.height
    }
}

/// The position of the highest row in `entries` carrying `hash`, if any.
pub open spec fn last_hash_match(entries: Seq<HeaderRow>, hash: Seq<u8>) -> Option<int>
    decreases entries.len(),
{
    if entries.len() == 0 {
        None
    } else if entries.last().hash@ == hash {
        Some(entries.len() - 1)
    } else {
        last_hash_match(entries.drop_last(), hash)
    }
}

/// If nothing at or above `i` matches, the last match is `i - 1` itself
/// (when it matches) or nothing (when `i` is zero).
proof fn lemma_last_hash_match(entries: Seq<HeaderRow>, hash: Seq<u8>, i: int)
    requires
        0 <= i <= entries.len(),
        forall|j: int| i <= j < entries.len() ==> (#[trigger] entries[j]).hash@ != hash,
        i > 0 ==> entries[i - 1].hash@ == hash,
    ensures
        last_hash_match(entries, hash) == if i > 0 {
            Some(i - 1)
        } else {
            None::<int>
        },
    decreases entries.len(),
{
    if entries.len() > 0 {
        if i == entries.len() {
        } else {
            assert(entries.last().hash@ != hash);
            lemma_last_hash_match(entries.drop_last(), hash, i);
        }
    }
}

/// Row-for-row equal header sequences agree on where a hash last occurs.
pub proof fn lemma_last_hash_match_eqv(a: Seq<HeaderRow>, b: Seq<HeaderRow>, hash: Seq<u8>)
    requires
        a.len() == b.len(),
        forall|i: int| 0 <= i < a.len() ==> crate::store::header_eqv(#[trigger] a[i], b[i]),
    ensures
        last_hash_match(a, hash) == last_hash_match(b, hash),
    decreases a.len(),
{
    if a.len() > 0 {
        assert(crate::store::header_eqv(a[a.len() - 1], b[a.len() - 1]));
        lemma_last_hash_match_eqv(a.drop_last(), b.drop_last(), hash);
    }
}

/// The highest header row carrying the given hash, if any.
fn find_tip(headers: &Vec<HeaderRow>, tip: &Vec<u8>) -> (r: Option<usize>)
    ensures
        (r is None <==> last_hash_match(headers@, tip@) is None),
        (r matches Some(k) ==> last_hash_match(headers@, tip@) == Some(k as int) && (k as int)
            < headers@.len() && headers@[k as int].hash@ == tip@),
        (r is None ==> forall|j: int|
            0 <= j < headers@.len() ==> (#[trigger] headers@[j]).hash@ != tip@),
{
    let mut i: usize = headers.len();
    while i > 0
        invariant
            0 <= i <= headers@.len(),
            forall|j: int| i <= j < headers@.len() ==> (#[trigger] headers@[j]).hash@ != tip@,
        decreases i,
    {
        i -= 1;
        if bytes_eq(&headers.get(i).unwrap().hash, tip) {
            proof {
                lemma_last_hash_match(headers@, tip@, i + 1);
            }
            return Some(i);
        }
    }
    proof {
        lemma_last_hash_match(headers@, tip@, 0);
    }
    None
}

/// The chain view: entry `i` is the block at height `i`.
pub struct Chain {
    pub entries: Vec<HeaderRow>,
}

/// The hash the chain currently resolves a height to, if any.
pub open spec fn hash_at(c: Chain, height: u32) -> Option<Seq<u8>> {
    if height < c.entries@.len() {
        Some(c.entries@[height as int].hash@)
    } else {
        None
    }
}

impl Chain {
    /// Chain invariant: non-empty (genesis is always present), each entry
    /// keyed by its own height, every hash 32 bytes.
    pub open spec fn wf(&self) -> bool {
        &&& self.entries@.len() >= 1
        &&& self.entries@.len() < 0xffff_ffff
        &&& forall|i: int|
            0 <= i < self.entries@.len() ==> (#[trigger] self.entries@[i]).height == i
                && self.entries@[i].wf()
    }

    /// A chain holding only the genesis block.
    pub fn new(genesis_hash: Vec<u8>, genesis_header: Vec<u8>) -> (r: Chain)
        requires
            genesis_hash@.len() == 32,
        ensures
            r.wf(),
            r.entries@.len() == 1,
            r.entries@[0].hash@ == genesis_hash@,
            r.entries@[0].header@ == genesis_header@,
    {
        let mut entries: Vec<HeaderRow> = Vec::new();
        entries.push(HeaderRow { height: 0, hash: genesis_hash, header: genesis_header });
        Chain { entries }
    }

    /// The current tip height.
    pub fn height(&self) -> (r: u32)
        requires
            self.wf(),
        ensures
            r == self.entries@.len() - 1,
    {
        proof {
            assert(self.entries@[self.entries@.len() - 1].height == self.entries@.len() - 1);
        }
        self.entries.get(self.entries.len() - 1).unwrap().height
    }

    /// The hash at a height, if the chain currently has one.
    pub fn get_block_hash(&self, height: u32) -> (r: Option<Vec<u8>>)
        ensures
            (r matches Some(h) ==> hash_at(*self, height) == Some(h@)),
            (r is None <==> hash_at(*self, height) is None),
    {
        if (height as usize) < self.entries.len() {
            Some(copy_bytes(&self.entries.get(height as usize).unwrap().hash))
        } else {
            None
        }
    }

    /// The header at a height, if the chain currently has one.
    pub fn get_block_header(&self, height: u32) -> (r: Option<Vec<u8>>)
        ensures
            (r matches Some(h) ==> (height as int) < self.entries@.len() && h@
                == self.entries@[height as int].header@),
            (r is None <==> (height as int) >= self.entries@.len()),
    {
        if (height as usize) < self.entries.len() {
            Some(copy_bytes(&self.entries.get(height as usize).unwrap().header))
        } else {
            None
        }
    }

    /// The height a hash currently occupies, if any (the highest, should a
    /// hash ever repeat).
    pub fn get_block_height(&self, hash: &Vec<u8>) -> (r: Option<u32>)
        requires
            self.wf(),
        ensures
            (r is None <==> last_hash_match(self.entries@, hash@) is None),
            (r matches Some(h) ==> last_hash_match(self.entries@, hash@) == Some(h as int) && (
            h as int) < self.entries@.len()
                && self.entries@[h as int].hash@ == hash@ && forall|j: int|
                h < j < self.entries@.len() ==> (#[trigger] self.entries@[j]).hash@ != hash@),
            (r is None ==> forall|j: int|
                0 <= j < self.entries@.len() ==> (#[trigger] self.entries@[j]).hash@ != hash@),
    {
        let mut i: usize = self.entries.len();
        while i > 0
            invariant
                self.wf(),
                0 <= i <= self.entries@.len(),
                forall|j: int|
                    i <= j < self.entries@.len() ==> (#[trigger] self.entries@[j]).hash@
                        != hash@,
            decreases i,
        {
            i -= 1;
            if bytes_eq(&self.entries.get(i).unwrap().hash, hash) {
                proof {
                    lemma_last_hash_match(self.entries@, hash@, i + 1);
                }
                return Some(i as u32);
            }
        }
        proof {
            lemma_last_hash_match(self.entries@, hash@, 0);
        }
        None
    }

    /// Rebuild the view from persisted header rows and the persisted tip:
    /// keep genesis, then the headers up to and including the tip's position.
    /// A tip that matches no header is a violated trust invariant.
    pub fn load(&mut self, headers: &Vec<HeaderRow>, tip: &Vec<u8>) -> (r: Result<
        (),
        IndexError,
    >)
        requires
            old(self).wf(),
            headers@.len() < 0xffff_fffe,
            forall|i: int|
                0 <= i < headers@.len() ==> (#[trigger] headers@[i]).height == i + 1
                    && headers@[i].wf(),
        ensures
            final(self).wf(),
            (r matches Ok(()) <==> last_hash_match(headers@, tip@) is Some),
            (r matches Ok(()) ==> {
                let k = final(self).entries@.len() - 2;
                &&& 0 <= k < headers@.len()
                &&& last_hash_match(headers@, tip@) == Some(k)
                &&& headers@[k].hash@ == tip@
                &&& final(self).entries@[0] == old(self).entries@[0]
                &&& forall|i: int|
                    0 < i < final(self).entries@.len() ==> header_eqv(
                        #[trigger] final(self).entries@[i],
                        headers@[i - 1],
                    )
            }),
            (r matches Err(e) ==> e == IndexError::BadTip && *final(self) == *old(self) && forall|
                i: int,
            | 0 <= i < headers@.len() ==> (#[trigger] headers@[i]).hash@ != tip@),
    {
        let found = find_tip(headers, tip);
        let k: usize;
        match found {
            None => {
                return Err(IndexError::BadTip);
            },
            Some(pos) => {
                k = pos;
            },
        }
        self.entries.truncate(1);
        let ghost base = self.entries@;
        let mut i: usize = 0;
        while i <= k
            invariant
                old(self).wf(),
                0 <= k < headers@.len(),
                headers@[k as int].hash@ == tip@,
                forall|q: int|
                    0 <= q < headers@.len() ==> (#[trigger] headers@[q]).height == q + 1
                        && headers@[q].wf(),
                0 <= i <= k + 1,
                base.len() == 1,
                base[0] == old(self).entries@[0],
                base[0].height == 0 && base[0].wf(),
                self.entries@.len() == 1 + i,
                self.entries@[0] == base[0],
                forall|j: int|
                    0 < j < self.entries@.len() ==> header_eqv(
                        #[trigger] self.entries@[j],
                        headers@[j - 1],
                    ) && self.entries@[j].height == j && self.entries@[j].wf(),
            decreases k + 1 - i,
        {
            self.entries.push(clone_header(headers.get(i).unwrap()));
            i += 1;
        }
        Ok(())
    }

    /// Drop the most recent `n` headers (never genesis), to force reindexing
    /// after an unclean shutdown.
    pub fn drop_last_headers(&mut self, n: usize)
        requires
            old(self).wf(),
        ensures
            final(self).wf(),
            final(self).entries@ == old(self).entries@.take(
                if old(self).entries@.len() - n >= 1 {
                    old(self).entries@.len() - n
                } else {
                    1
                },
            ),
    {
        let len = self.entries.len();
        let keep = if len > n {
            len - n
        } else {
            1
        };
        self.entries.truncate(keep);
        proof {
            assert(self.entries@ =~= old(self).entries@.take(keep as int));
        }
    }

    /// Extend the view with newly indexed headers, in height order.
    pub fn update(&mut self, headers: &Vec<NewHeader>)
        requires
            old(self).wf(),
            old(self).entries@.len() + headers@.len() < 0xffff_ffff,
            forall|i: int|
                0 <= i < headers@.len() ==> (#[trigger] headers@[i]).height == old(
                    self,
                ).entries@.len() + i && headers@[i].wf(),
        ensures
            final(self).wf(),
            final(self).entries@.len() == old(self).entries@.len() + headers@.len(),
            final(self).entries@.take(old(self).entries@.len() as int) == old(self).entries@,
            forall|i: int|
                old(self).entries@.len() <= i < final(self).entries@.len() ==> (
                #[trigger] final(self).entries@[i]).height == i && final(self).entries@[i].hash@
                    == headers@[i - old(self).entries@.len()].hash@
                    && final(self).entries@[i].header@ == headers@[i - old(
                    self,
                ).entries@.len()].header@,
    {
        let n = headers.len();
        let ghost base = self.entries@;
        let mut i: usize = 0;
        while i < n
            invariant
                n == headers@.len(),
                base.len() + n < 0xffff_ffff,
                forall|q: int|
                    0 <= q < headers@.len() ==> (#[trigger] headers@[q]).height == base.len() + q
                        && headers@[q].wf(),
                0 <= i <= n,
                self.entries@.len() == base.len() + i,
                self.entries@.take(base.len() as int) == base,
                forall|j: int|
                    base.len() <= j < self.entries@.len() ==> (
                    #[trigger] self.entries@[j]).height == j && self.entries@[j].hash@
                        == headers@[j - base.len()].hash@ && self.entries@[j].header@
                        == headers@[j - base.len()].header@,
            decreases n - i,
        {
            let h = headers.get(i).unwrap();
            let ghost prev = self.entries@;
            self.entries.push(
                HeaderRow { height: h.height, hash: copy_bytes(&h.hash), header: copy_bytes(
                    &h.header,
                ) },
            );
            proof {
                assert(self.entries@.take(base.len() as int) =~= prev.take(base.len() as int));
            }
            i += 1;
        }
        proof {
            assert forall|i2: int| 0 <= i2 < base.len() implies (#[trigger] self.entries@[i2])
                == base[i2] by {
                assert(self.entries@.take(base.len() as int)[i2] == self.entries@[i2]);
            }
        }
    }
}

} // verus!
