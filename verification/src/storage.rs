//! In-memory block storage keyed by block hash: the Blake2-256 digest of the
//! header's canonical encoding.

use vstd::prelude::*;

use crate::block::{encode_header, Block};
use crate::bytes::{bytes_eq, copy_bytes};
use crate::crypto::blake2_256_of;
use crate::Error;

verus! {

/// The block stored under hash `h`, if any.
pub open spec fn stored_block(s: Seq<(Vec<u8>, Block)>, h: Seq<u8>) -> Option<Block>
    decreases s.len(),
{
    if s.len() == 0 {
        None
    } else if s[0].0@ == h {
        Some(s[0].1)
    } else {
        stored_block(s.drop_first(), h)
    }
}

proof fn lemma_stored_at(s: Seq<(Vec<u8>, Block)>, h: Seq<u8>, k: int)
    requires
        0 <= k < s.len(),
        s[k].0@ == h,
        forall|j: int| 0 <= j < k ==> s[j].0@ != h,
    ensures
        stored_block(s, h) == Some(s[k].1),
    decreases k,
{
    if k > 0 {
        lemma_stored_at(s.drop_first(), h, k - 1);
    }
}

proof fn lemma_stored_none(s: Seq<(Vec<u8>, Block)>, h: Seq<u8>)
    requires
        forall|j: int| 0 <= j < s.len() ==> s[j].0@ != h,
    ensures
        stored_block(s, h) is None,
    decreases s.len(),
{
    if s.len() > 0 {
        lemma_stored_none(s.drop_first(), h);
    }
}

proof fn lemma_stored_update_other(s: Seq<(Vec<u8>, Block)>, k: int, e: (Vec<u8>, Block), h2: Seq<u8>)
    requires
        0 <= k < s.len(),
        e.0@ == s[k].0@,
        h2 != s[k].0@,
    ensures
        stored_block(s.update(k, e), h2) == stored_block(s, h2),
    decreases s.len(),
{
    let t = s.update(k, e);
    if k == 0 {
        assert(t.drop_first() =~= s.drop_first());
    } else {
        assert(t.drop_first() =~= s.drop_first().update(k - 1, e));
        lemma_stored_update_other(s.drop_first(), k - 1, e, h2);
    }
}

proof fn lemma_stored_push_other(s: Seq<(Vec<u8>, Block)>, e: (Vec<u8>, Block), h2: Seq<u8>)
    requires
        h2 != e.0@,
    ensures
        stored_block(s.push(e), h2) == stored_block(s, h2),
    decreases s.len(),
{
    let t = s.push(e);
    if s.len() == 0 {
        assert(t[0] == e);
        assert(t.drop_first() =~= Seq::<(Vec<u8>, Block)>::empty());
        assert(stored_block(t, h2) == stored_block(t.drop_first(), h2));
    } else {
        assert(t[0] == s[0]);
        assert(t.drop_first() =~= s.drop_first().push(e));
        lemma_stored_push_other(s.drop_first(), e, h2);
    }
}

/// The hash a block is stored under: the Blake2-256 digest of its header's
/// canonical encoding.
pub open spec fn block_key(b: Block) -> Seq<u8> {
    blake2_256_of(b.header.encoding())
}

/// In-memory storage of blocks, keyed by block hash.
pub struct MemoryStorage {
    /// Block mapping: hash to block, one entry per hash.
    blocks: Vec<(Vec<u8>, Block)>,
    /// Hash of the most recently stored block.
    latest_block_hash: Option<Vec<u8>>,
}

impl MemoryStorage {
    /// The block stored under a hash, if any.
    pub closed spec fn stored(self, h: Seq<u8>) -> Option<Block> {
        stored_block(self.blocks@, h)
    }

    /// The hash of the most recently stored block, if any.
    pub closed spec fn latest(self) -> Option<Seq<u8>> {
        match self.latest_block_hash {
            Some(v) => Some(v@),
            None => None,
        }
    }

    /// Internal invariant: one entry per hash.
    pub closed spec fn wf(self) -> bool {
        forall|i: int, j: int|
            0 <= i < j < self.blocks@.len() ==> self.blocks@[i].0@ != self.blocks@[j].0@
    }

    /// Create a new empty memory storage instance.
    pub fn new() -> (r: MemoryStorage)
        ensures
            r.wf(),
            forall|h: Seq<u8>| r.stored(h) is None,
            r.latest() is None,
    {
        MemoryStorage { blocks: Vec::new(), latest_block_hash: None }
    }

    /// Store a block under the hash of its header, replacing any block
    /// already stored under that hash, and remember it as the latest block.
    #[verifier::loop_isolation(false)]
    pub fn put_block(&mut self, block: Block) -> (r: Result<(), Error>)
        requires
            old(self).wf(),
        ensures
            final(self).wf(),
            r is Ok,
            final(self).stored(block_key(block)) == Some(block),
            forall|h2: Seq<u8>|
                h2 != block_key(block) ==> final(self).stored(h2) == old(self).stored(h2),
            final(self).latest() == Some(block_key(block)),
    {
        let encoded = encode_header(&block.header);
        let block_hash = crate::crypto::hash(encoded.as_slice());
        let ghost key = block_hash@;
        self.latest_block_hash = Some(copy_bytes(&block_hash));
        let mut k: usize = 0;
        while k < self.blocks.len()
            invariant
                self.blocks@ == old(self).blocks@,
                self.latest_block_hash matches Some(v) && v@ == key,
                k <= self.blocks@.len(),
                forall|j: int| 0 <= j < k ==> self.blocks@[j].0@ != key,
            decreases self.blocks@.len() - k,
        {
            if bytes_eq(&self.blocks[k].0, &block_hash) {
                let _prev = self.blocks.remove(k);
                self.blocks.insert(k, (block_hash, block));
                proof {
                    let e = self.blocks@[k as int];
                    assert(self.blocks@ =~= old(self).blocks@.update(k as int, e));
                    lemma_stored_at(self.blocks@, key, k as int);
                    assert forall|h2: Seq<u8>| h2 != key implies stored_block(self.blocks@, h2)
                        == stored_block(old(self).blocks@, h2) by {
                        lemma_stored_update_other(old(self).blocks@, k as int, e, h2);
                    }
                }
                return Ok(());
            }
            k = k + 1;
        }
        self.blocks.push((block_hash, block));
        proof {
            let e = self.blocks@.last();
            lemma_stored_at(self.blocks@, key, old(self).blocks@.len() as int);
            assert forall|h2: Seq<u8>| h2 != key implies stored_block(self.blocks@, h2)
                == stored_block(old(self).blocks@, h2) by {
                lemma_stored_push_other(old(self).blocks@, e, h2);
            }
        }
        Ok(())
    }

    /// Retrieve the block stored under a hash.
    #[verifier::loop_isolation(false)]
    pub fn get_block(&self, hash: &Vec<u8>) -> (r: Result<Option<&Block>, Error>)
        requires
            self.wf(),
        ensures
            r matches Ok(o) && (match self.stored(hash@) {
                Some(b) => o matches Some(rb) && *rb == b,
                None => o is None,
            }),
    {
        let mut k: usize = 0;
        while k < self.blocks.len()
            invariant
                k <= self.blocks@.len(),
                forall|j: int| 0 <= j < k ==> self.blocks@[j].0@ != hash@,
            decreases self.blocks@.len() - k,
        {
            if bytes_eq(&self.blocks[k].0, hash) {
                proof {
                    lemma_stored_at(self.blocks@, hash@, k as int);
                }
                return Ok(Some(&self.blocks[k].1));
            }
            k = k + 1;
        }
        proof {
            lemma_stored_none(self.blocks@, hash@);
        }
        Ok(None)
    }

    /// Retrieve the most recently stored block.
    pub fn get_latest_block(&self) -> (r: Result<Option<&Block>, Error>)
        requires
            self.wf(),
        ensures
            r matches Ok(o) && (match self.latest() {
                None => o is None,
                Some(h) => (match self.stored(h) {
                    Some(b) => o matches Some(rb) && *rb == b,
                    None => o is None,
                }),
            }),
    {
        match &self.latest_block_hash {
            None => Ok(None),
            Some(h) => self.get_block(h),
        }
    }

    /// The current chain height: the latest block's number, or zero when
    /// nothing is stored.
    pub fn get_height(&self) -> (r: Result<u64, Error>)
        requires
            self.wf(),
        ensures
            r matches Ok(n) && n == (match self.latest() {
                None => 0u64,
                Some(h) => (match self.stored(h) {
                    Some(b) => b.header.number,
                    None => 0u64,
                }),
            }),
    {
        match self.get_latest_block() {
            Ok(Some(b)) => Ok(b.header.number),
            Ok(None) => Ok(0),
            Err(e) => Err(e),
        }
    }

    /// Whether a block with the given hash is stored.
    pub fn has_block(&self, hash: &Vec<u8>) -> (r: Result<bool, Error>)
        requires
            self.wf(),
        ensures
            r == Ok::<bool, Error>(self.stored(hash@) is Some),
    {
        match self.get_block(hash) {
            Ok(o) => Ok(o.is_some()),
            Err(e) => Err(e),
        }
    }
}

} // verus!
