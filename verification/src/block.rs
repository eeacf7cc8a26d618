//! Block, header and digest-log data structures, and the trusted boundary to
//! the outside block model (`sp_runtime`): SCALE header encoding and opaque
//! extrinsics.
//!
//! The digest log is modelled as a list with exactly the two entry kinds the
//! consensus core reads and writes: a "pre-runtime" entry carrying the
//! author's raw public-key bytes, and a "seal" entry carrying the proposer's
//! signature over the canonical pre-seal encoding of the header.

use vstd::prelude::*;

use parity_scale_codec::Encode;

verus! {

#[verifier::external_type_specification]
#[verifier::external_body]
pub struct ExOpaqueExtrinsic(sp_runtime::OpaqueExtrinsic);

/// Transaction type: an opaque extrinsic of the outside block model.
pub type Transaction = sp_runtime::OpaqueExtrinsic;

/// A single transaction call: raw transaction data as bytes.
#[derive(Debug)]
pub struct Call {
    /// Raw transaction data.
    pub data: Vec<u8>,
}

/// One entry of a header's digest log.
#[derive(Debug)]
pub enum DigestEntry {
    /// Pre-runtime metadata: the author's raw public-key bytes, under a
    /// 4-byte consensus-engine identifier.
    PreRuntime {
        /// Consensus-engine identifier.
        engine: [u8; 4],
        /// The author's raw public-key bytes.
        data: Vec<u8>,
    },
    /// The seal: the proposer's signature over the canonical pre-seal
    /// encoding of the header, under a 4-byte consensus-engine identifier.
    Seal {
        /// Consensus-engine identifier.
        engine: [u8; 4],
        /// The signature bytes.
        data: Vec<u8>,
    },
}

impl DigestEntry {
    /// Spec-level content of one entry: whether it is a seal, its engine
    /// identifier bytes, and its payload bytes.
    pub open spec fn entry_view(self) -> (bool, Seq<u8>, Seq<u8>) {
        match self {
            DigestEntry::PreRuntime { engine, data } => (false, engine@, data@),
            DigestEntry::Seal { engine, data } => (true, engine@, data@),
        }
    }
}

/// Spec-level content of a digest log.
pub open spec fn digest_view(s: Seq<DigestEntry>) -> Seq<(bool, Seq<u8>, Seq<u8>)> {
    s.map_values(|e: DigestEntry| e.entry_view())
}

/// The payload of the last pre-runtime entry of a digest log, if any: the
/// block author's raw public-key bytes. A later entry overrides an earlier
/// one.
pub open spec fn last_author(d: Seq<(bool, Seq<u8>, Seq<u8>)>) -> Option<Seq<u8>>
    decreases d.len(),
{
    if d.len() == 0 {
        None
    } else if !d.last().0 {
        Some(d.last().2)
    } else {
        last_author(d.drop_last())
    }
}

/// The payload of the last seal entry of a digest log, if any: the claimed
/// signature bytes. A later entry overrides an earlier one.
pub open spec fn last_seal(d: Seq<(bool, Seq<u8>, Seq<u8>)>) -> Option<Seq<u8>>
    decreases d.len(),
{
    if d.len() == 0 {
        None
    } else if d.last().0 {
        Some(d.last().2)
    } else {
        last_seal(d.drop_last())
    }
}

/// A digest log with its seal entries removed: what the proposer signed.
pub open spec fn without_seals(d: Seq<(bool, Seq<u8>, Seq<u8>)>) -> Seq<(bool, Seq<u8>, Seq<u8>)>
    decreases d.len(),
{
    if d.len() == 0 {
        d
    } else if d.last().0 {
        without_seals(d.drop_last())
    } else {
        without_seals(d.drop_last()).push(d.last())
    }
}

/// A block header: 64-bit block number, Blake2-256 root hashes, and a digest
/// log.
#[derive(Debug)]
pub struct Header {
    /// The block number.
    pub number: u64,
    /// The parent block's hash.
    pub parent_hash: [u8; 32],
    /// The state trie root.
    pub state_root: [u8; 32],
    /// The extrinsics trie root.
    pub extrinsics_root: [u8; 32],
    /// The digest log.
    pub digest: Vec<DigestEntry>,
}

/// SCALE encoding of an `sp_runtime` generic header (64-bit block number,
/// Blake2-256 hashing) with the given field values; a pure function of them.
pub uninterp spec fn scale_header_bytes(
    number: u64,
    parent_hash: Seq<u8>,
    state_root: Seq<u8>,
    extrinsics_root: Seq<u8>,
    digest: Seq<(bool, Seq<u8>, Seq<u8>)>,
) -> Seq<u8>;

impl Header {
    /// The canonical SCALE encoding of this header, as produced by the
    /// outside block model.
    pub open spec fn encoding(self) -> Seq<u8> {
        scale_header_bytes(
            self.number,
            self.parent_hash@,
            self.state_root@,
            self.extrinsics_root@,
            digest_view(self.digest@),
        )
    }

    /// The canonical SCALE encoding of this header with its seal entries
    /// removed: the bytes the proposer signs, and the bytes a verifier
    /// checks a seal against.
    pub open spec fn pre_seal_encoding(self) -> Seq<u8> {
        scale_header_bytes(
            self.number,
            self.parent_hash@,
            self.state_root@,
            self.extrinsics_root@,
            without_seals(digest_view(self.digest@)),
        )
    }
}

/// The header with its seal entries removed: the header the proposer signed.
pub fn pre_seal_header(h: &Header) -> (r: Header)
    ensures
        r.number == h.number,
        r.parent_hash@ == h.parent_hash@,
        r.state_root@ == h.state_root@,
        r.extrinsics_root@ == h.extrinsics_root@,
        digest_view(r.digest@) == without_seals(digest_view(h.digest@)),
        r.encoding() == h.pre_seal_encoding(),
{
    let ghost dv = digest_view(h.digest@);
    let mut digest: Vec<DigestEntry> = Vec::new();
    let mut i: usize = 0;
    while i < h.digest.len()
        invariant
            i <= h.digest@.len(),
            dv == digest_view(h.digest@),
            digest_view(digest@) == without_seals(dv.take(i as int)),
        decreases h.digest@.len() - i,
    {
        proof {
            assert(dv.take(i + 1 as int).drop_last() =~= dv.take(i as int));
            assert(dv.take(i + 1 as int).last() == h.digest@[i as int].entry_view());
        }
        match &h.digest[i] {
            DigestEntry::PreRuntime { engine, data } => {
                let e = DigestEntry::PreRuntime { engine: *engine, data: crate::bytes::copy_bytes(data) };
                proof {
                    assert(e.entry_view() == h.digest@[i as int].entry_view());
                    assert(digest_view(digest@.push(e)) =~= digest_view(digest@).push(
                        e.entry_view(),
                    ));
                }
                digest.push(e);
            },
            DigestEntry::Seal { .. } => {},
        }
        i = i + 1;
    }
    proof {
        assert(dv.take(dv.len() as int) =~= dv);
    }
    Header {
        number: h.number,
        parent_hash: h.parent_hash,
        state_root: h.state_root,
        extrinsics_root: h.extrinsics_root,
        digest,
    }
}

/// A complete block: a header and its transactions.
#[derive(Debug)]
pub struct Block {
    /// The block header.
    pub header: Header,
    /// The block's transactions.
    pub extrinsics: Vec<Transaction>,
}

/// Creates a new block header with the specified parameters.
pub fn create_header(
    number: u64,
    parent_hash: [u8; 32],
    state_root: [u8; 32],
    extrinsics_root: [u8; 32],
    digest: Vec<DigestEntry>,
) -> (r: Header)
    ensures
        r.number == number,
        r.parent_hash@ == parent_hash@,
        r.state_root@ == state_root@,
        r.extrinsics_root@ == extrinsics_root@,
        r.digest == digest,
{
    Header { number, parent_hash, state_root, extrinsics_root, digest }
}

/// Creates a new block from a header and a list of transactions.
pub fn create_block(header: Header, transactions: Vec<Transaction>) -> (r: Block)
    ensures
        r.header == header,
        r.extrinsics == transactions,
{
    Block { header, extrinsics: transactions }
}

/// Creates a transaction from a `Call`, delegating to the outside block
/// model. Relies on sp_runtime::OpaqueExtrinsic::try_from_encoded_extrinsic
/// over the SCALE encoding (parity_scale_codec) of the call's data, which a
/// freshly encoded byte vector always satisfies.
#[verifier::external_body]
pub fn create_transaction(call: Call) -> (r: Transaction)
{
    let encoded = call.data.encode();
    sp_runtime::OpaqueExtrinsic::try_from_encoded_extrinsic(encoded.as_slice())
        .expect("a freshly encoded call decodes")
}

/// Whether sp_runtime accepts these bytes as an encoded opaque extrinsic; a
/// pure function of the bytes.
pub uninterp spec fn opaque_tx_wf(bytes: Seq<u8>) -> bool;

/// Relies on sp_runtime::OpaqueExtrinsic::try_from_encoded_extrinsic:
/// decoding succeeds or fails as a pure function of the input bytes.
#[verifier::external_body]
pub(crate) fn decode_transaction(bytes: &Vec<u8>) -> (r: Option<Transaction>)
    ensures
        r is Some <==> opaque_tx_wf(bytes@),
{
    match sp_runtime::OpaqueExtrinsic::try_from_encoded_extrinsic(bytes.as_slice()) {
        Ok(x) => Some(x),
        Err(_) => None,
    }
}

/// The canonical SCALE encoding of a header. Relies on the `Encode`
/// implementation of sp_runtime::generic::Header: the encoding is a pure
/// function of the header's field values. Public because the outside block
/// model exposes the canonical encoding to every caller.
#[verifier::external_body]
pub fn encode_header(h: &Header) -> (r: Vec<u8>)
    ensures
        r@ == scale_header_bytes(
            h.number,
            h.parent_hash@,
            h.state_root@,
            h.extrinsics_root@,
            digest_view(h.digest@),
        ),
        r@ == h.encoding(),
{
    let mut digest = sp_runtime::Digest::default();
    for e in h.digest.iter() {
        digest.push(match e {
            DigestEntry::PreRuntime { engine, data } => sp_runtime::DigestItem::PreRuntime(*engine, data.clone()),
            DigestEntry::Seal { engine, data } => sp_runtime::DigestItem::Seal(*engine, data.clone()),
        });
    }
    let header: sp_runtime::generic::Header<u64, sp_runtime::traits::BlakeTwo256> = sp_runtime::generic::Header {
        parent_hash: sp_core::H256(h.parent_hash),
        number: h.number,
        state_root: sp_core::H256(h.state_root),
        extrinsics_root: sp_core::H256(h.extrinsics_root),
        digest,
    };
    header.encode()
}

} // verus!
