//! The DPoS consensus core: validator registry and vote ledger, deterministic
//! proposer scheduling, block authoring and verification, and quorum-based
//! finalization.

use vstd::prelude::*;

use crate::block::{
    create_block, create_header, decode_transaction, digest_view, encode_header, last_author,
    last_seal, opaque_tx_wf, pre_seal_header, without_seals, Block, DigestEntry, Header,
    Transaction,
};
use crate::bytes::{byte_seqs, bytes_eq, contains_bytes, copy_bytes};
use crate::crypto::{blake2_256_of, sr25519_verifies, KeyPair};
use crate::Error;

verus! {

/// Consensus-level failure kinds.
#[derive(Clone, Copy, Debug, PartialEq, Eq, Structural)]
pub enum ConsensusError {
    /// Shared state could not be locked.
    LockError,
    /// The system clock could not be read.
    TimeError,
    /// A block carries no identifiable, currently ranked author.
    InvalidProposer,
    /// The local node attempted to author out of turn.
    NotCurrentProposer,
    /// A block's seal is malformed or does not match its author.
    InvalidSignature,
    /// Quorum was not reached on this confirmation attempt.
    FinalizationFailed,
}

/// Validator information. The validator's raw sr25519 public-key bytes are
/// also its account identity.
#[derive(Debug)]
pub struct Validator {
    /// Validator's raw public-key bytes.
    pub public_key: Vec<u8>,
    /// Amount of staked tokens.
    pub stake: u64,
    /// Number of votes received; derived, recomputed from the vote ledger on
    /// each ranking pass.
    pub votes: u64,
}

/// Spec-level content of a validator: public-key bytes, stake, votes.
pub type ValidatorInfo = (Seq<u8>, u64, u64);

impl Validator {
    /// Spec-level content of this validator.
    pub open spec fn info(self) -> ValidatorInfo {
        (self.public_key@, self.stake, self.votes)
    }
}

/// Spec-level content of a validator registry.
pub open spec fn registry_view(s: Seq<Validator>) -> Seq<ValidatorInfo> {
    s.map_values(|v: Validator| v.info())
}

/// A validator's ranking score: stake times votes, saturating at the 64-bit
/// limit so that an overflowing product cannot wrap around to a low rank.
pub open spec fn score(stake: u64, votes: u64) -> u64 {
    if stake * votes > u64::MAX {
        u64::MAX
    } else {
        (stake * votes) as u64
    }
}

/// The ranking score of a validator's spec-level content.
pub open spec fn score_of(v: ValidatorInfo) -> u64 {
    score(v.1, v.2)
}

/// Executable saturating ranking score.
pub fn score_exec(stake: u64, votes: u64) -> (r: u64)
    ensures
        r == score(stake, votes),
{
    match stake.checked_mul(votes) {
        Some(p) => p,
        None => u64::MAX,
    }
}

/// `x` placed into the ranked sequence `s` (descending by score), after every
/// entry whose score is at least `x`'s: the insertion step of a stable sort.
pub open spec fn insert_ranked(x: ValidatorInfo, s: Seq<ValidatorInfo>) -> Seq<ValidatorInfo>
    decreases s.len(),
{
    if s.len() == 0 {
        seq![x]
    } else if score_of(s[0]) >= score_of(x) {
        seq![s[0]] + insert_ranked(x, s.drop_first())
    } else {
        seq![x] + s
    }
}

/// The registry ranked descending by score with a stable insertion sort:
/// entries with equal scores keep their original relative order.
pub open spec fn rank_sorted(s: Seq<ValidatorInfo>) -> Seq<ValidatorInfo>
    decreases s.len(),
{
    if s.len() == 0 {
        s
    } else {
        insert_ranked(s.last(), rank_sorted(s.drop_last()))
    }
}

/// Whether a registry view is sorted descending by score.
pub open spec fn ranked_desc(s: Seq<ValidatorInfo>) -> bool {
    forall|i: int, j: int| 0 <= i <= j < s.len() ==> score_of(s[i]) >= score_of(s[j])
}

proof fn lemma_insert_ranked_len(x: ValidatorInfo, s: Seq<ValidatorInfo>)
    ensures
        insert_ranked(x, s).len() == s.len() + 1,
    decreases s.len(),
{
    if s.len() != 0 && score_of(s[0]) >= score_of(x) {
        lemma_insert_ranked_len(x, s.drop_first());
    }
}

/// Ranking keeps exactly the original entries: same length (and, entrywise, a
/// permutation realised by the insertion positions).
pub proof fn lemma_rank_sorted_len(s: Seq<ValidatorInfo>)
    ensures
        rank_sorted(s).len() == s.len(),
    decreases s.len(),
{
    if s.len() != 0 {
        lemma_rank_sorted_len(s.drop_last());
        lemma_insert_ranked_len(s.last(), rank_sorted(s.drop_last()));
    }
}

proof fn lemma_insert_ranked_multiset(x: ValidatorInfo, s: Seq<ValidatorInfo>)
    ensures
        insert_ranked(x, s).to_multiset() == s.to_multiset().insert(x),
    decreases s.len(),
{
    broadcast use vstd::seq_lib::group_to_multiset_ensures;

    if s.len() == 0 {
        assert(seq![x] =~= Seq::empty().push(x));
    } else if score_of(s[0]) >= score_of(x) {
        lemma_insert_ranked_multiset(x, s.drop_first());
        assert(seq![s[0]] + insert_ranked(x, s.drop_first()) =~= insert_ranked(
            x,
            s.drop_first(),
        ).insert(0, s[0]));
        assert(s =~= s.drop_first().insert(0, s[0]));
    } else {
        assert(seq![x] + s =~= s.insert(0, x));
    }
}

/// The ranked registry is a permutation of the original: no validator is
/// invented or lost by sorting (truncation alone shrinks the registry).
pub proof fn lemma_rank_sorted_multiset(s: Seq<ValidatorInfo>)
    ensures
        rank_sorted(s).to_multiset() == s.to_multiset(),
    decreases s.len(),
{
    broadcast use vstd::seq_lib::group_to_multiset_ensures;

    if s.len() != 0 {
        lemma_rank_sorted_multiset(s.drop_last());
        lemma_insert_ranked_multiset(s.last(), rank_sorted(s.drop_last()));
        assert(s =~= s.drop_last().push(s.last()));
    }
}

proof fn lemma_insert_ranked_sorted(x: ValidatorInfo, s: Seq<ValidatorInfo>)
    requires
        ranked_desc(s),
    ensures
        ranked_desc(insert_ranked(x, s)),
    decreases s.len(),
{
    lemma_insert_ranked_len(x, s);
    if s.len() == 0 {
    } else if score_of(s[0]) >= score_of(x) {
        assert(ranked_desc(s.drop_first()));
        lemma_insert_ranked_sorted(x, s.drop_first());
        let r = seq![s[0]] + insert_ranked(x, s.drop_first());
        assert forall|i: int, j: int| 0 <= i <= j < r.len() implies score_of(r[i]) >= score_of(
            r[j],
        ) by {
            if i == 0 && j > 0 {
                let t = insert_ranked(x, s.drop_first());
                assert(r[j] == t[j - 1]);
                lemma_insert_ranked_member_bound(x, s.drop_first(), j - 1);
            }
        }
    }
}

/// Every entry of `insert_ranked(x, s)` is either `x` or an entry of `s`; its
/// score is bounded by the head score of `s` or by `x`'s score.
proof fn lemma_insert_ranked_member_bound(x: ValidatorInfo, s: Seq<ValidatorInfo>, k: int)
    requires
        ranked_desc(s),
        0 <= k < insert_ranked(x, s).len(),
    ensures
        insert_ranked(x, s)[k] == x || s.contains(insert_ranked(x, s)[k]),
        score_of(insert_ranked(x, s)[k]) <= if s.len() == 0 {
            score_of(x)
        } else if score_of(s[0]) >= score_of(x) {
            score_of(s[0])
        } else {
            score_of(x)
        },
    decreases s.len(),
{
    lemma_insert_ranked_len(x, s);
    if s.len() == 0 {
    } else if score_of(s[0]) >= score_of(x) {
        if k > 0 {
            assert(ranked_desc(s.drop_first()));
            lemma_insert_ranked_member_bound(x, s.drop_first(), k - 1);
            if s.drop_first().contains(insert_ranked(x, s.drop_first())[k - 1]) {
                let w = choose|w: int|
                    0 <= w < s.drop_first().len() && s.drop_first()[w] == insert_ranked(
                        x,
                        s.drop_first(),
                    )[k - 1];
                assert(s[w + 1] == s.drop_first()[w]);
            }
        }
    } else {
        if k > 0 {
            assert(insert_ranked(x, s)[k] == s[k - 1]);
        }
    }
}

/// Ranking sorts: the result is in descending score order.
pub proof fn lemma_rank_sorted_is_sorted(s: Seq<ValidatorInfo>)
    ensures
        ranked_desc(rank_sorted(s)),
    decreases s.len(),
{
    if s.len() != 0 {
        lemma_rank_sorted_is_sorted(s.drop_last());
        lemma_insert_ranked_sorted(s.last(), rank_sorted(s.drop_last()));
    }
}

proof fn lemma_insert_ranked_after_equals(x: ValidatorInfo, s: Seq<ValidatorInfo>)
    requires
        forall|i: int| 0 <= i < s.len() ==> score_of(s[i]) >= score_of(x),
    ensures
        insert_ranked(x, s) == s.push(x),
    decreases s.len(),
{
    if s.len() == 0 {
        assert(insert_ranked(x, s) =~= s.push(x));
    } else {
        lemma_insert_ranked_after_equals(x, s.drop_first());
        assert(insert_ranked(x, s) =~= s.push(x));
    }
}

/// Ranking stability on ties: a registry whose validators all score equally
/// is left in its original order by a ranking pass.
pub proof fn lemma_rank_ties_preserve_order(s: Seq<ValidatorInfo>)
    requires
        forall|i: int, j: int|
            0 <= i < s.len() && 0 <= j < s.len() ==> score_of(s[i]) == score_of(s[j]),
    ensures
        rank_sorted(s) == s,
    decreases s.len(),
{
    if s.len() != 0 {
        lemma_rank_ties_preserve_order(s.drop_last());
        lemma_insert_ranked_after_equals(s.last(), s.drop_last());
        assert(s.drop_last().push(s.last()) =~= s);
    }
}

/// The validators of one score, in their current order.
pub open spec fn keep_score(s: Seq<ValidatorInfo>, c: u64) -> Seq<ValidatorInfo>
    decreases s.len(),
{
    if s.len() == 0 {
        s
    } else if score_of(s[0]) == c {
        seq![s[0]] + keep_score(s.drop_first(), c)
    } else {
        keep_score(s.drop_first(), c)
    }
}

proof fn lemma_keep_score_push(s: Seq<ValidatorInfo>, x: ValidatorInfo, c: u64)
    ensures
        score_of(x) == c ==> keep_score(s.push(x), c) == keep_score(s, c).push(x),
        score_of(x) != c ==> keep_score(s.push(x), c) == keep_score(s, c),
    decreases s.len(),
{
    let t = s.push(x);
    let e0 = Seq::<ValidatorInfo>::empty();
    if s.len() == 0 {
        assert(t[0] == x);
        assert(t.drop_first() =~= e0);
        assert(keep_score(e0, c) == e0);
        if score_of(x) == c {
            assert(keep_score(t, c) == seq![x] + keep_score(e0, c));
            assert(seq![x] + e0 =~= e0.push(x));
        } else {
            assert(keep_score(t, c) == keep_score(t.drop_first(), c));
        }
    } else {
        assert(t[0] == s[0]);
        assert(t.drop_first() =~= s.drop_first().push(x));
        lemma_keep_score_push(s.drop_first(), x, c);
        if score_of(s[0]) == c && score_of(x) == c {
            assert(seq![s[0]] + keep_score(s.drop_first(), c).push(x) =~= (seq![s[0]]
                + keep_score(s.drop_first(), c)).push(x));
        }
    }
}

proof fn lemma_keep_score_none(s: Seq<ValidatorInfo>, c: u64)
    requires
        forall|i: int| 0 <= i < s.len() ==> score_of(s[i]) != c,
    ensures
        keep_score(s, c) == Seq::<ValidatorInfo>::empty(),
    decreases s.len(),
{
    if s.len() > 0 {
        lemma_keep_score_none(s.drop_first(), c);
    }
}

proof fn lemma_insert_keeps_other_scores(x: ValidatorInfo, s: Seq<ValidatorInfo>, c: u64)
    requires
        c != score_of(x),
    ensures
        keep_score(insert_ranked(x, s), c) == keep_score(s, c),
    decreases s.len(),
{
    let e0 = Seq::<ValidatorInfo>::empty();
    if s.len() == 0 {
        assert(seq![x][0] == x);
        assert(seq![x].drop_first() =~= e0);
        assert(keep_score(e0, c) == e0);
        assert(keep_score(seq![x], c) == keep_score(seq![x].drop_first(), c));
    } else if score_of(s[0]) >= score_of(x) {
        lemma_insert_keeps_other_scores(x, s.drop_first(), c);
        let r = seq![s[0]] + insert_ranked(x, s.drop_first());
        assert(r[0] == s[0]);
        assert(r.drop_first() =~= insert_ranked(x, s.drop_first()));
        if score_of(s[0]) == c {
            assert(keep_score(r, c) == seq![s[0]] + keep_score(r.drop_first(), c));
        } else {
            assert(keep_score(r, c) == keep_score(r.drop_first(), c));
        }
    } else {
        let r = seq![x] + s;
        assert(r[0] == x);
        assert(r.drop_first() =~= s);
        assert(keep_score(r, c) == keep_score(s, c));
    }
}

proof fn lemma_insert_keeps_own_score(x: ValidatorInfo, s: Seq<ValidatorInfo>)
    requires
        ranked_desc(s),
    ensures
        keep_score(insert_ranked(x, s), score_of(x)) == keep_score(s, score_of(x)).push(x),
    decreases s.len(),
{
    let c = score_of(x);
    let e0 = Seq::<ValidatorInfo>::empty();
    if s.len() == 0 {
        assert(seq![x].drop_first() =~= e0);
        assert(keep_score(seq![x], c) == seq![x] + keep_score(e0, c));
        assert(seq![x] + e0 =~= e0.push(x));
    } else if score_of(s[0]) >= c {
        assert(ranked_desc(s.drop_first()));
        lemma_insert_keeps_own_score(x, s.drop_first());
        let r = seq![s[0]] + insert_ranked(x, s.drop_first());
        assert(r[0] == s[0]);
        assert(r.drop_first() =~= insert_ranked(x, s.drop_first()));
        if score_of(s[0]) == c {
            assert(seq![s[0]] + keep_score(s.drop_first(), c).push(x) =~= (seq![s[0]]
                + keep_score(s.drop_first(), c)).push(x));
        }
    } else {
        // every entry of the sorted registry scores below `c`, so none shares
        // x's score and x's score class was empty
        let r = seq![x] + s;
        assert(r[0] == x);
        assert(r.drop_first() =~= s);
        assert(forall|i: int| 0 <= i < s.len() ==> score_of(s[i]) != c);
        lemma_keep_score_none(s, c);
        assert(keep_score(r, c) == seq![x] + keep_score(s, c));
        assert(seq![x] + e0 =~= e0.push(x));
    }
}

/// Full ranking stability: for every score, the validators of that score
/// appear in the ranked registry in exactly their original relative order.
pub proof fn lemma_rank_sorted_stable(s: Seq<ValidatorInfo>, c: u64)
    ensures
        keep_score(rank_sorted(s), c) == keep_score(s, c),
    decreases s.len(),
{
    if s.len() != 0 {
        lemma_rank_sorted_stable(s.drop_last(), c);
        lemma_rank_sorted_is_sorted(s.drop_last());
        let x = s.last();
        let sorted = rank_sorted(s.drop_last());
        if score_of(x) == c {
            lemma_insert_keeps_own_score(x, sorted);
        } else {
            lemma_insert_keeps_other_scores(x, sorted, c);
        }
        lemma_keep_score_push(s.drop_last(), x, c);
        assert(s.drop_last().push(x) =~= s);
    }
}

/// Ranking a pair: the higher-scoring validator comes first, and a tie keeps
/// the original relative order.
pub proof fn lemma_rank_pair(a: ValidatorInfo, b: ValidatorInfo)
    ensures
        score_of(a) >= score_of(b) ==> rank_sorted(seq![a, b]) == seq![a, b],
        score_of(b) > score_of(a) ==> rank_sorted(seq![a, b]) == seq![b, a],
{
    let s = seq![a, b];
    assert(s.drop_last() =~= seq![a]);
    assert(s.last() == b);
    assert(seq![a].drop_last() =~= Seq::<ValidatorInfo>::empty());
    assert(seq![a].last() == a);
    assert(rank_sorted(Seq::<ValidatorInfo>::empty()) == Seq::<ValidatorInfo>::empty());
    assert(rank_sorted(seq![a]) == insert_ranked(a, Seq::<ValidatorInfo>::empty()));
    assert(insert_ranked(a, Seq::<ValidatorInfo>::empty()) =~= seq![a]);
    assert(rank_sorted(s) == insert_ranked(b, seq![a]));
    if score_of(a) >= score_of(b) {
        assert(insert_ranked(b, seq![a]) =~= seq![a] + insert_ranked(b, seq![a].drop_first()));
        assert(seq![a].drop_first() =~= Seq::<ValidatorInfo>::empty());
        assert(insert_ranked(b, Seq::<ValidatorInfo>::empty()) =~= seq![b]);
        assert(seq![a] + seq![b] =~= seq![a, b]);
        assert(insert_ranked(b, seq![a]) =~= seq![a, b]);
    } else {
        assert(insert_ranked(b, seq![a]) =~= seq![b] + seq![a]);
        assert(seq![b] + seq![a] =~= seq![b, a]);
    }
}

/// The first currently ranked validator whose public-key bytes equal `key`.
pub open spec fn find_validator(vs: Seq<ValidatorInfo>, key: Seq<u8>) -> Option<ValidatorInfo>
    decreases vs.len(),
{
    if vs.len() == 0 {
        None
    } else if vs[0].0 == key {
        Some(vs[0])
    } else {
        find_validator(vs.drop_first(), key)
    }
}

proof fn lemma_find_validator_at(vs: Seq<ValidatorInfo>, key: Seq<u8>, k: int)
    requires
        0 <= k < vs.len(),
        vs[k].0 == key,
        forall|j: int| 0 <= j < k ==> vs[j].0 != key,
    ensures
        find_validator(vs, key) == Some(vs[k]),
    decreases k,
{
    if k > 0 {
        lemma_find_validator_at(vs.drop_first(), key, k - 1);
    }
}

proof fn lemma_find_validator_none(vs: Seq<ValidatorInfo>, key: Seq<u8>)
    requires
        forall|j: int| 0 <= j < vs.len() ==> vs[j].0 != key,
    ensures
        find_validator(vs, key) is None,
    decreases vs.len(),
{
    if vs.len() > 0 {
        lemma_find_validator_none(vs.drop_first(), key);
    }
}

/// The outcome of block validation against a registry view: the digest log
/// must name an author who is a currently ranked validator; a seal, when one
/// is present, must be a well-formed signature by that author over the
/// header's canonical pre-seal encoding. A block with no seal at all passes
/// author-matching only — a documented leniency.
pub open spec fn validate_outcome(
    vs: Seq<ValidatorInfo>,
    dv: Seq<(bool, Seq<u8>, Seq<u8>)>,
    pre_seal: Seq<u8>,
) -> Result<(), ConsensusError> {
    match last_author(dv) {
        None => Err(ConsensusError::InvalidProposer),
        Some(author) => match find_validator(vs, author) {
            None => Err(ConsensusError::InvalidProposer),
            Some(v) => match last_seal(dv) {
                None => Ok(()),
                Some(sig) => if sig.len() == 64 && sr25519_verifies(sig, pre_seal, v.0) {
                    Ok(())
                } else {
                    Err(ConsensusError::InvalidSignature)
                },
            },
        },
    }
}

/// A found validator carries the key it was looked up by.
proof fn lemma_find_validator_key(vs: Seq<ValidatorInfo>, key: Seq<u8>)
    requires
        find_validator(vs, key) is Some,
    ensures
        find_validator(vs, key)->Some_0.0 == key,
    decreases vs.len(),
{
    if vs.len() != 0 && vs[0].0 != key {
        lemma_find_validator_key(vs.drop_first(), key);
    }
}

/// Authoring/verification round trip: a block in this engine's authored
/// format — one pre-runtime entry naming the author, followed by one seal —
/// validates whenever the author is currently ranked and the seal is a
/// 64-byte signature by the author over the header's pre-seal encoding.
pub proof fn lemma_authored_block_validates(
    vs: Seq<ValidatorInfo>,
    author: Seq<u8>,
    eng: Seq<u8>,
    sig: Seq<u8>,
    pre_seal: Seq<u8>,
)
    requires
        find_validator(vs, author) is Some,
        sig.len() == 64,
        sr25519_verifies(sig, pre_seal, author),
    ensures
        validate_outcome(vs, seq![(false, eng, author), (true, eng, sig)], pre_seal) is Ok,
{
    let pre = (false, eng, author);
    let dv = seq![pre, (true, eng, sig)];
    assert(dv.drop_last() =~= seq![pre]);
    assert(dv.last() == (true, eng, sig));
    assert(seq![pre].last() == pre);
    assert(last_author(seq![pre]) == Some(author));
    assert(last_author(dv) == last_author(dv.drop_last()));
    assert(last_seal(dv) == Some(sig));
    lemma_find_validator_key(vs, author);
}

/// One vote-ledger entry: the set of distinct voters of one candidate,
/// identified by account (public-key) bytes.
#[derive(Debug)]
pub struct VoteEntry {
    /// The candidate's account bytes.
    pub candidate: Vec<u8>,
    /// The distinct voters' account bytes.
    pub voters: Vec<Vec<u8>>,
}

/// Per-block confirmation record.
#[derive(Debug)]
pub struct BlockConfirmation {
    /// Account bytes of the distinct validators who confirmed the block.
    pub confirmations: Vec<Vec<u8>>,
    /// Whether the block has been finalized; never reverts to `false`.
    pub finalized: bool,
}

/// The voters recorded for `cand`: the first (and, in a well-formed ledger,
/// only) entry's voters, or the empty sequence for an unknown candidate.
pub open spec fn voters_in(s: Seq<VoteEntry>, cand: Seq<u8>) -> Seq<Seq<u8>>
    decreases s.len(),
{
    if s.len() == 0 {
        Seq::empty()
    } else if s[0].candidate@ == cand {
        byte_seqs(s[0].voters@)
    } else {
        voters_in(s.drop_first(), cand)
    }
}

/// The confirming validators recorded for block hash `h`, or the empty
/// sequence for an unknown hash.
pub open spec fn confirmed_by(s: Seq<(Vec<u8>, BlockConfirmation)>, h: Seq<u8>) -> Seq<Seq<u8>>
    decreases s.len(),
{
    if s.len() == 0 {
        Seq::empty()
    } else if s[0].0@ == h {
        byte_seqs(s[0].1.confirmations@)
    } else {
        confirmed_by(s.drop_first(), h)
    }
}

/// Whether block hash `h` has been finalized; an unknown hash has not.
pub open spec fn is_finalized(s: Seq<(Vec<u8>, BlockConfirmation)>, h: Seq<u8>) -> bool
    decreases s.len(),
{
    if s.len() == 0 {
        false
    } else if s[0].0@ == h {
        s[0].1.finalized
    } else {
        is_finalized(s.drop_first(), h)
    }
}

proof fn lemma_voters_in_at(s: Seq<VoteEntry>, cand: Seq<u8>, k: int)
    requires
        0 <= k < s.len(),
        s[k].candidate@ == cand,
        forall|j: int| 0 <= j < k ==> s[j].candidate@ != cand,
    ensures
        voters_in(s, cand) == byte_seqs(s[k].voters@),
    decreases k,
{
    if k > 0 {
        lemma_voters_in_at(s.drop_first(), cand, k - 1);
    }
}

proof fn lemma_voters_in_none(s: Seq<VoteEntry>, cand: Seq<u8>)
    requires
        forall|j: int| 0 <= j < s.len() ==> s[j].candidate@ != cand,
    ensures
        voters_in(s, cand) == Seq::<Seq<u8>>::empty(),
    decreases s.len(),
{
    if s.len() > 0 {
        lemma_voters_in_none(s.drop_first(), cand);
    }
}

/// Replacing entry `k` with an entry for the same candidate leaves every
/// other candidate's voters unchanged.
proof fn lemma_voters_in_update_other(s: Seq<VoteEntry>, k: int, e: VoteEntry, c2: Seq<u8>)
    requires
        0 <= k < s.len(),
        e.candidate@ == s[k].candidate@,
        c2 != s[k].candidate@,
    ensures
        voters_in(s.update(k, e), c2) == voters_in(s, c2),
    decreases s.len(),
{
    let t = s.update(k, e);
    if k == 0 {
        assert(t.drop_first() =~= s.drop_first());
    } else {
        assert(t.drop_first() =~= s.drop_first().update(k - 1, e));
        lemma_voters_in_update_other(s.drop_first(), k - 1, e, c2);
    }
}

/// Appending an entry for a new candidate leaves every other candidate's
/// voters unchanged.
proof fn lemma_voters_in_push_other(s: Seq<VoteEntry>, e: VoteEntry, c2: Seq<u8>)
    requires
        c2 != e.candidate@,
    ensures
        voters_in(s.push(e), c2) == voters_in(s, c2),
    decreases s.len(),
{
    let t = s.push(e);
    if s.len() == 0 {
        assert(t[0] == e);
        assert(t.drop_first() =~= Seq::<VoteEntry>::empty());
        assert(voters_in(t, c2) == voters_in(t.drop_first(), c2));
        assert(voters_in(t.drop_first(), c2) == Seq::<Seq<u8>>::empty());
    } else {
        assert(t[0] == s[0]);
        assert(t.drop_first() =~= s.drop_first().push(e));
        lemma_voters_in_push_other(s.drop_first(), e, c2);
        if s[0].candidate@ == c2 {
            assert(voters_in(t, c2) == byte_seqs(t[0].voters@));
        } else {
            assert(voters_in(t, c2) == voters_in(t.drop_first(), c2));
        }
    }
}

proof fn lemma_conf_at(s: Seq<(Vec<u8>, BlockConfirmation)>, h: Seq<u8>, k: int)
    requires
        0 <= k < s.len(),
        s[k].0@ == h,
        forall|j: int| 0 <= j < k ==> s[j].0@ != h,
    ensures
        confirmed_by(s, h) == byte_seqs(s[k].1.confirmations@),
        is_finalized(s, h) == s[k].1.finalized,
    decreases k,
{
    if k > 0 {
        lemma_conf_at(s.drop_first(), h, k - 1);
    }
}

proof fn lemma_conf_none(s: Seq<(Vec<u8>, BlockConfirmation)>, h: Seq<u8>)
    requires
        forall|j: int| 0 <= j < s.len() ==> s[j].0@ != h,
    ensures
        confirmed_by(s, h) == Seq::<Seq<u8>>::empty(),
        !is_finalized(s, h),
    decreases s.len(),
{
    if s.len() > 0 {
        lemma_conf_none(s.drop_first(), h);
    }
}

/// Replacing record `k` with a record for the same hash leaves every other
/// hash's record unchanged.
proof fn lemma_conf_update_other(
    s: Seq<(Vec<u8>, BlockConfirmation)>,
    k: int,
    e: (Vec<u8>, BlockConfirmation),
    h2: Seq<u8>,
)
    requires
        0 <= k < s.len(),
        e.0@ == s[k].0@,
        h2 != s[k].0@,
    ensures
        confirmed_by(s.update(k, e), h2) == confirmed_by(s, h2),
        is_finalized(s.update(k, e), h2) == is_finalized(s, h2),
    decreases s.len(),
{
    let t = s.update(k, e);
    if k == 0 {
        assert(t.drop_first() =~= s.drop_first());
    } else {
        assert(t.drop_first() =~= s.drop_first().update(k - 1, e));
        lemma_conf_update_other(s.drop_first(), k - 1, e, h2);
    }
}

/// Appending a record for a new hash leaves every other hash's record
/// unchanged.
proof fn lemma_conf_push_other(
    s: Seq<(Vec<u8>, BlockConfirmation)>,
    e: (Vec<u8>, BlockConfirmation),
    h2: Seq<u8>,
)
    requires
        h2 != e.0@,
    ensures
        confirmed_by(s.push(e), h2) == confirmed_by(s, h2),
        is_finalized(s.push(e), h2) == is_finalized(s, h2),
    decreases s.len(),
{
    let t = s.push(e);
    if s.len() == 0 {
        assert(t[0] == e);
        assert(t.drop_first() =~= Seq::<(Vec<u8>, BlockConfirmation)>::empty());
        assert(confirmed_by(t, h2) == confirmed_by(t.drop_first(), h2));
        assert(is_finalized(t, h2) == is_finalized(t.drop_first(), h2));
    } else {
        assert(t[0] == s[0]);
        assert(t.drop_first() =~= s.drop_first().push(e));
        lemma_conf_push_other(s.drop_first(), e, h2);
        if s[0].0@ != h2 {
            assert(confirmed_by(t, h2) == confirmed_by(t.drop_first(), h2));
            assert(is_finalized(t, h2) == is_finalized(t.drop_first(), h2));
        }
    }
}

/// DPoS consensus engine state. A node typically guards each of these
/// resources behind its own read-write lock; here the engine is a value and
/// the surrounding process decides how to share it, so lock failures cannot
/// arise inside the library itself.
pub struct DPoS {
    /// Current list of validators, ranked by the latest ranking pass.
    validators: Vec<Validator>,
    /// Voting records mapping candidates to their distinct voters.
    votes: Vec<VoteEntry>,
    /// Maximum number of validators retained by a ranking pass.
    validator_count: usize,
    /// Duration of each round in seconds; at least one.
    round_interval: u64,
    /// The node's key pair for signing.
    key_pair: KeyPair,
    /// Per-block confirmation records, keyed by block hash.
    confirmations: Vec<(Vec<u8>, BlockConfirmation)>,
}

impl DPoS {
    /// The registry's spec-level content, in rank order.
    pub closed spec fn registry(self) -> Seq<ValidatorInfo> {
        registry_view(self.validators@)
    }

    /// The distinct voters recorded for a candidate.
    pub closed spec fn voters_of(self, cand: Seq<u8>) -> Seq<Seq<u8>> {
        voters_in(self.votes@, cand)
    }

    /// The distinct validators who confirmed a block hash.
    pub closed spec fn conf_ids(self, h: Seq<u8>) -> Seq<Seq<u8>> {
        confirmed_by(self.confirmations@, h)
    }

    /// Whether a block hash has been finalized.
    pub closed spec fn conf_finalized(self, h: Seq<u8>) -> bool {
        is_finalized(self.confirmations@, h)
    }

    /// The registry cap: how many validators a ranking pass retains.
    pub closed spec fn max_validators(self) -> usize {
        self.validator_count
    }

    /// The round duration in seconds.
    pub closed spec fn interval(self) -> u64 {
        self.round_interval
    }

    /// The local node's raw public-key bytes (its account identity).
    pub closed spec fn local_key(self) -> Seq<u8> {
        self.key_pair.pk()
    }

    /// Internal invariant: a positive round interval, a well-formed key
    /// pair, one ledger entry per candidate with distinct voters, and one
    /// confirmation record per hash with distinct confirmers.
    pub closed spec fn wf(self) -> bool {
        &&& self.round_interval >= 1
        &&& self.key_pair.wf()
        &&& forall|i: int, j: int|
            0 <= i < j < self.votes@.len() ==> self.votes@[i].candidate@ != self.votes@[j].candidate@
        &&& forall|i: int|
            0 <= i < self.votes@.len() ==> byte_seqs(self.votes@[i].voters@).no_duplicates()
        &&& forall|i: int, j: int|
            0 <= i < j < self.confirmations@.len() ==> self.confirmations@[i].0@
                != self.confirmations@[j].0@
        &&& forall|i: int|
            0 <= i < self.confirmations@.len() ==> byte_seqs(
                self.confirmations@[i].1.confirmations@,
            ).no_duplicates()
    }

    /// Whether the local node is the proposer of the round that `now`
    /// (seconds) falls in: the round number modulo the registry length picks
    /// the proposer's index; an empty registry has no proposer.
    pub open spec fn proposer_spec(self, now: u64) -> bool {
        if self.registry().len() == 0 {
            false
        } else {
            let round = now as int / self.interval() as int;
            self.registry()[round % self.registry().len() as int].0 == self.local_key()
        }
    }
}

/// The two engines agree on every ledger candidate.
pub open spec fn same_ledger(a: DPoS, b: DPoS) -> bool {
    forall|c: Seq<u8>| a.voters_of(c) == b.voters_of(c)
}

/// The two engines agree on every confirmation record.
pub open spec fn same_confirmations(a: DPoS, b: DPoS) -> bool {
    forall|h: Seq<u8>|
        a.conf_ids(h) == b.conf_ids(h) && a.conf_finalized(h) == b.conf_finalized(h)
}

/// The two engines agree on cap, interval and signing identity.
pub open spec fn same_config(a: DPoS, b: DPoS) -> bool {
    a.max_validators() == b.max_validators() && a.interval() == b.interval() && a.local_key()
        == b.local_key()
}

impl DPoS {
    /// Create a new DPoS engine with an empty registry, ledger and
    /// confirmation map.
    pub fn new(key_pair: KeyPair, validator_count: usize, round_interval: u64) -> (r: DPoS)
        requires
            key_pair.wf(),
            round_interval >= 1,
        ensures
            r.wf(),
            r.registry() == Seq::<ValidatorInfo>::empty(),
            forall|c: Seq<u8>| r.voters_of(c) == Seq::<Seq<u8>>::empty(),
            forall|h: Seq<u8>| r.conf_ids(h) == Seq::<Seq<u8>>::empty() && !r.conf_finalized(h),
            r.max_validators() == validator_count,
            r.interval() == round_interval,
            r.local_key() == key_pair.pk(),
    {
        let r = DPoS {
            validators: Vec::new(),
            votes: Vec::new(),
            validator_count,
            round_interval,
            key_pair,
            confirmations: Vec::new(),
        };
        proof {
            assert(r.registry() =~= Seq::<ValidatorInfo>::empty());
        }
        r
    }

    /// Append a validator to the registry, unconditionally; only a ranking
    /// pass ever shrinks the registry.
    pub fn add_validator(&mut self, validator: Validator) -> (r: Result<(), Error>)
        requires
            old(self).wf(),
        ensures
            final(self).wf(),
            r is Ok,
            final(self).registry() == old(self).registry().push(validator.info()),
            same_ledger(*final(self), *old(self)),
            same_confirmations(*final(self), *old(self)),
            same_config(*final(self), *old(self)),
    {
        let ghost info = validator.info();
        self.validators.push(validator);
        proof {
            assert(registry_view(self.validators@) =~= registry_view(
                old(self).validators@,
            ).push(info));
        }
        Ok(())
    }

    /// Return the validator at a rank position, or nothing when the position
    /// is out of range (the caller treats that as "no proposer this round").
    pub fn proposer_at(&self, index: usize) -> (r: Option<&Validator>)
        ensures
            index < self.registry().len() ==> (r matches Some(v) && v.info() == self.registry()[index as int]),
            index >= self.registry().len() ==> r is None,
    {
        if index < self.validators.len() {
            Some(&self.validators[index])
        } else {
            None
        }
    }

    /// Whether the local node is the proposer of the round that `now`
    /// (seconds since the epoch) falls in. Over an empty registry this is
    /// always false: no validators means no proposer, never a fault.
    pub fn is_current_proposer(&self, now: u64) -> (r: bool)
        requires
            self.wf(),
        ensures
            r == self.proposer_spec(now),
            self.registry().len() == 0 ==> !r,
    {
        if self.validators.len() == 0 {
            return false;
        }
        let round = now / self.round_interval;
        let index = (round % (self.validators.len() as u64)) as usize;
        bytes_eq(&self.validators[index].public_key, self.key_pair.public_key())
    }

    /// Record a vote from `voter` for `candidate`; a repeated vote from the
    /// same voter to the same candidate is absorbed (set semantics).
    #[verifier::loop_isolation(false)]
    pub fn vote(&mut self, voter: Vec<u8>, candidate: Vec<u8>) -> (r: Result<(), Error>)
        requires
            old(self).wf(),
        ensures
            final(self).wf(),
            r is Ok,
            final(self).voters_of(candidate@) == if old(self).voters_of(candidate@).contains(
                voter@,
            ) {
                old(self).voters_of(candidate@)
            } else {
                old(self).voters_of(candidate@).push(voter@)
            },
            forall|c: Seq<u8>|
                c != candidate@ ==> final(self).voters_of(c) == old(self).voters_of(c),
            final(self).registry() == old(self).registry(),
            same_confirmations(*final(self), *old(self)),
            same_config(*final(self), *old(self)),
    {
        let ghost old_votes = self.votes@;
        let mut k: usize = 0;
        while k < self.votes.len()
            invariant
                *self == *old(self),
                k <= self.votes@.len(),
                forall|j: int| 0 <= j < k ==> self.votes@[j].candidate@ != candidate@,
            decreases self.votes@.len() - k,
        {
            if bytes_eq(&self.votes[k].candidate, &candidate) {
                proof {
                    lemma_voters_in_at(old_votes, candidate@, k as int);
                }
                let mut entry = self.votes.remove(k);
                let present = contains_bytes(&entry.voters, &voter);
                if !present {
                    entry.voters.push(voter);
                    proof {
                        assert(byte_seqs(entry.voters@) =~= byte_seqs(
                            old_votes[k as int].voters@,
                        ).push(entry.voters@.last()@));
                    }
                }
                self.votes.insert(k, entry);
                proof {
                    let e = self.votes@[k as int];
                    assert(self.votes@ =~= old_votes.update(k as int, e));
                    lemma_voters_in_at(self.votes@, candidate@, k as int);
                    assert forall|c: Seq<u8>| c != candidate@ implies voters_in(
                        self.votes@,
                        c,
                    ) == voters_in(old_votes, c) by {
                        lemma_voters_in_update_other(old_votes, k as int, e, c);
                    }
                    assert(byte_seqs(entry.voters@).no_duplicates());
                }
                return Ok(());
            }
            k = k + 1;
        }
        proof {
            lemma_voters_in_none(old_votes, candidate@);
        }
        let entry = VoteEntry { candidate, voters: vec![voter] };
        self.votes.push(entry);
        proof {
            let e = self.votes@.last();
            assert(byte_seqs(e.voters@) =~= Seq::<Seq<u8>>::empty().push(e.voters@[0]@));
            lemma_voters_in_at(self.votes@, e.candidate@, old_votes.len() as int);
            assert forall|c: Seq<u8>| c != e.candidate@ implies voters_in(self.votes@, c)
                == voters_in(old_votes, c) by {
                lemma_voters_in_push_other(old_votes, e, c);
            }
        }
        Ok(())
    }

    /// The number of distinct voters recorded for a candidate; ranking
    /// derives each validator's vote count from this.
    pub fn count_votes(&self, candidate: &Vec<u8>) -> (r: u64)
        requires
            self.wf(),
        ensures
            r == self.voters_of(candidate@).len(),
    {
        let mut k: usize = 0;
        while k < self.votes.len()
            invariant
                k <= self.votes@.len(),
                forall|j: int| 0 <= j < k ==> self.votes@[j].candidate@ != candidate@,
            decreases self.votes@.len() - k,
        {
            if bytes_eq(&self.votes[k].candidate, candidate) {
                proof {
                    lemma_voters_in_at(self.votes@, candidate@, k as int);
                }
                return self.votes[k].voters.len() as u64;
            }
            k = k + 1;
        }
        proof {
            lemma_voters_in_none(self.votes@, candidate@);
        }
        0
    }
}

/// `x` inserted into the already-ranked `v`, after every validator scoring
/// at least `x`'s score.
fn insert_validator_ranked(x: Validator, v: Vec<Validator>) -> (r: Vec<Validator>)
    ensures
        registry_view(r@) == insert_ranked(x.info(), registry_view(v@)),
    decreases v@.len(),
{
    let ghost rv = registry_view(v@);
    let ghost xi = x.info();
    let mut v = v;
    if v.len() == 0 {
        v.push(x);
        proof {
            assert(registry_view(v@) =~= seq![xi]);
        }
        v
    } else {
        proof {
            assert(rv[0] == v@[0].info());
        }
        let head_score = score_exec(v[0].stake, v[0].votes);
        let x_score = score_exec(x.stake, x.votes);
        if head_score >= x_score {
            let h = v.remove(0);
            proof {
                assert(registry_view(v@) =~= rv.drop_first());
            }
            let mut r = insert_validator_ranked(x, v);
            r.insert(0, h);
            proof {
                assert(registry_view(r@) =~= seq![h.info()] + insert_ranked(
                    xi,
                    rv.drop_first(),
                ));
            }
            r
        } else {
            v.insert(0, x);
            proof {
                assert(registry_view(v@) =~= seq![xi] + rv);
            }
            v
        }
    }
}

/// The registry ranked descending by saturating score with a stable
/// insertion sort.
fn rank_validators(v: Vec<Validator>) -> (r: Vec<Validator>)
    ensures
        registry_view(r@) == rank_sorted(registry_view(v@)),
    decreases v@.len(),
{
    let ghost rv = registry_view(v@);
    let mut v = v;
    if v.len() == 0 {
        v
    } else {
        let x = v.pop().unwrap();
        proof {
            assert(registry_view(v@) =~= rv.drop_last());
            assert(x.info() == rv[rv.len() - 1]);
        }
        let sorted = rank_validators(v);
        insert_validator_ranked(x, sorted)
    }
}

/// The all-zero consensus-engine identifier this engine tags its digest
/// entries with.
pub open spec fn engine_zero() -> Seq<u8> {
    seq![0u8, 0u8, 0u8, 0u8]
}

/// The registry with each validator's vote count refreshed from the ledger:
/// what a ranking pass sorts.
pub open spec fn refresh_view(d: DPoS) -> Seq<ValidatorInfo> {
    d.registry().map_values(|t: ValidatorInfo| (t.0, t.1, d.voters_of(t.0).len() as u64))
}

/// The registry view after a full ranking pass: vote counts refreshed from
/// the ledger, sorted descending by saturating score (stable), and truncated
/// to the registry cap.
pub open spec fn ranked_registry(d: DPoS) -> Seq<ValidatorInfo> {
    let ranked = rank_sorted(refresh_view(d));
    if ranked.len() <= d.max_validators() {
        ranked
    } else {
        ranked.take(d.max_validators() as int)
    }
}

impl DPoS {
    /// Recompute each validator's votes from the ledger, sort the registry
    /// descending by stake times votes (stable; the product saturates), and
    /// keep only the top validators up to the cap. This is the only place
    /// the registry's membership shrinks.
    #[verifier::loop_isolation(false)]
    pub fn update_validators(&mut self) -> (r: Result<(), Error>)
        requires
            old(self).wf(),
        ensures
            final(self).wf(),
            r is Ok,
            final(self).registry() == ranked_registry(*old(self)),
            same_ledger(*final(self), *old(self)),
            same_confirmations(*final(self), *old(self)),
            same_config(*final(self), *old(self)),
    {
        let ghost rfv = refresh_view(*old(self));
        let mut refreshed: Vec<Validator> = Vec::new();
        let mut i: usize = 0;
        while i < self.validators.len()
            invariant
                *self == *old(self),
                i <= self.validators@.len(),
                registry_view(refreshed@) == rfv.take(i as int),
            decreases self.validators@.len() - i,
        {
            let count = self.count_votes(&self.validators[i].public_key);
            let nv = Validator {
                public_key: copy_bytes(&self.validators[i].public_key),
                stake: self.validators[i].stake,
                votes: count,
            };
            proof {
                assert(self.registry()[i as int] == self.validators@[i as int].info());
                assert(nv.info() == rfv[i as int]);
                assert(registry_view(refreshed@.push(nv)) =~= registry_view(refreshed@).push(
                    nv.info(),
                ));
                assert(rfv.take(i + 1 as int) =~= rfv.take(i as int).push(rfv[i as int]));
            }
            refreshed.push(nv);
            i = i + 1;
        }
        proof {
            assert(rfv.take(rfv.len() as int) =~= rfv);
        }
        let mut sorted = rank_validators(refreshed);
        if sorted.len() > self.validator_count {
            let ghost whole = registry_view(sorted@);
            let _dropped = sorted.split_off(self.validator_count);
            proof {
                assert(registry_view(sorted@) =~= whole.take(self.validator_count as int));
            }
        }
        self.validators = sorted;
        Ok(())
    }

    /// Record `validator`'s confirmation of the block with hash `block_hash`
    /// and decide finalization: the record is created on first confirmation;
    /// re-confirming an already-finalized block reports finalized without
    /// mutating anything; a duplicate confirmation by the same validator is
    /// absorbed; the block finalizes exactly when the number of distinct
    /// confirmations exceeds two thirds of the current registry length.
    /// Every hash once finalized stays finalized.
    #[verifier::loop_isolation(false)]
    pub fn confirm_block(&mut self, block_hash: Vec<u8>, validator: Vec<u8>) -> (r: Result<
        bool,
        Error,
    >)
        requires
            old(self).wf(),
        ensures
            final(self).wf(),
            final(self).registry() == old(self).registry(),
            same_ledger(*final(self), *old(self)),
            same_config(*final(self), *old(self)),
            forall|h2: Seq<u8>|
                h2 != block_hash@ ==> final(self).conf_ids(h2) == old(self).conf_ids(h2)
                    && final(self).conf_finalized(h2) == old(self).conf_finalized(h2),
            forall|h2: Seq<u8>|
                old(self).conf_finalized(h2) ==> final(self).conf_finalized(h2),
            old(self).conf_finalized(block_hash@) ==> r == Ok::<bool, Error>(true)
                && final(self).conf_ids(block_hash@) == old(self).conf_ids(block_hash@),
            !old(self).conf_finalized(block_hash@) ==> ({
                let ids = if old(self).conf_ids(block_hash@).contains(validator@) {
                    old(self).conf_ids(block_hash@)
                } else {
                    old(self).conf_ids(block_hash@).push(validator@)
                };
                let fin = ids.len() > old(self).registry().len() * 2 / 3;
                &&& final(self).conf_ids(block_hash@) == ids
                &&& final(self).conf_finalized(block_hash@) == fin
                &&& r == Ok::<bool, Error>(fin)
            }),
    {
        let ghost old_confs = self.confirmations@;
        let mut k: usize = 0;
        while k < self.confirmations.len()
            invariant
                *self == *old(self),
                k <= self.confirmations@.len(),
                forall|j: int| 0 <= j < k ==> self.confirmations@[j].0@ != block_hash@,
            decreases self.confirmations@.len() - k,
        {
            if bytes_eq(&self.confirmations[k].0, &block_hash) {
                proof {
                    lemma_conf_at(old_confs, block_hash@, k as int);
                }
                let mut entry = self.confirmations.remove(k);
                if entry.1.finalized {
                    self.confirmations.insert(k, entry);
                    proof {
                        assert(self.confirmations@ =~= old_confs);
                    }
                    return Ok(true);
                }
                let present = contains_bytes(&entry.1.confirmations, &validator);
                if !present {
                    entry.1.confirmations.push(validator);
                    proof {
                        assert(byte_seqs(entry.1.confirmations@) =~= byte_seqs(
                            old_confs[k as int].1.confirmations@,
                        ).push(entry.1.confirmations@.last()@));
                    }
                }
                let threshold = (self.validators.len() as u128) * 2 / 3;
                let fin = (entry.1.confirmations.len() as u128) > threshold;
                if fin {
                    entry.1.finalized = true;
                }
                self.confirmations.insert(k, entry);
                proof {
                    let e = self.confirmations@[k as int];
                    assert(self.confirmations@ =~= old_confs.update(k as int, e));
                    lemma_conf_at(self.confirmations@, block_hash@, k as int);
                    assert forall|h2: Seq<u8>| h2 != block_hash@ implies confirmed_by(
                        self.confirmations@,
                        h2,
                    ) == confirmed_by(old_confs, h2) && is_finalized(self.confirmations@, h2)
                        == is_finalized(old_confs, h2) by {
                        lemma_conf_update_other(old_confs, k as int, e, h2);
                    }
                }
                return Ok(fin);
            }
            k = k + 1;
        }
        proof {
            lemma_conf_none(old_confs, block_hash@);
        }
        let threshold = (self.validators.len() as u128) * 2 / 3;
        let fin = 1u128 > threshold;
        let record = BlockConfirmation { confirmations: vec![validator], finalized: fin };
        self.confirmations.push((block_hash, record));
        proof {
            let e = self.confirmations@.last();
            assert(byte_seqs(e.1.confirmations@) =~= Seq::<Seq<u8>>::empty().push(
                e.1.confirmations@[0]@,
            ));
            lemma_conf_at(self.confirmations@, e.0@, old_confs.len() as int);
            assert forall|h2: Seq<u8>| h2 != e.0@ implies confirmed_by(self.confirmations@, h2)
                == confirmed_by(old_confs, h2) && is_finalized(self.confirmations@, h2)
                == is_finalized(old_confs, h2) by {
                lemma_conf_push_other(old_confs, e, h2);
            }
        }
        Ok(fin)
    }

    /// Check a received block: its digest log must name an author who is a
    /// currently ranked validator (the last pre-runtime entry wins), and its
    /// seal, when present, must be a well-formed 64-byte signature by that
    /// author over the header's canonical pre-seal encoding. A block with no
    /// seal passes author-matching only — a deliberate, documented leniency.
    #[verifier::loop_isolation(false)]
    pub fn validate_block(&self, block: &Block) -> (r: Result<(), Error>)
        requires
            self.wf(),
        ensures
            r is Ok <==> validate_outcome(
                self.registry(),
                digest_view(block.header.digest@),
                block.header.pre_seal_encoding(),
            ) is Ok,
            validate_outcome(
                self.registry(),
                digest_view(block.header.digest@),
                block.header.pre_seal_encoding(),
            ) matches Err(e) ==> r == Err::<(), Error>(Error::Consensus(e)),
    {
        let ghost dv = digest_view(block.header.digest@);
        let digest = &block.header.digest;
        let mut author: Option<&Vec<u8>> = None;
        let mut seal: Option<&Vec<u8>> = None;
        let mut i: usize = 0;
        while i < digest.len()
            invariant
                i <= digest@.len(),
                match author {
                    Some(a) => last_author(dv.take(i as int)) == Some(a@),
                    None => last_author(dv.take(i as int)) is None,
                },
                match seal {
                    Some(s) => last_seal(dv.take(i as int)) == Some(s@),
                    None => last_seal(dv.take(i as int)) is None,
                },
            decreases digest@.len() - i,
        {
            proof {
                assert(dv.take(i + 1 as int).drop_last() =~= dv.take(i as int));
                assert(dv.take(i + 1 as int).last() == digest@[i as int].entry_view());
            }
            match &digest[i] {
                DigestEntry::PreRuntime { data, .. } => {
                    author = Some(data);
                },
                DigestEntry::Seal { data, .. } => {
                    seal = Some(data);
                },
            }
            i = i + 1;
        }
        proof {
            assert(dv.take(dv.len() as int) =~= dv);
        }
        let author = match author {
            Some(a) => a,
            None => {
                return Err(Error::Consensus(ConsensusError::InvalidProposer));
            },
        };
        let mut k: usize = 0;
        while k < self.validators.len()
            invariant
                k <= self.validators@.len(),
                forall|j: int| 0 <= j < k ==> self.registry()[j].0 != author@,
            decreases self.validators@.len() - k,
        {
            if bytes_eq(&self.validators[k].public_key, author) {
                proof {
                    assert(self.registry()[k as int].0 == self.validators@[
                        k as int
                    ].public_key@);
                    lemma_find_validator_at(self.registry(), author@, k as int);
                }
                match seal {
                    None => {
                        return Ok(());
                    },
                    Some(sig) => {
                        if sig.len() != 64 {
                            return Err(Error::Consensus(ConsensusError::InvalidSignature));
                        }
                        let stripped = pre_seal_header(&block.header);
                        let encoded = encode_header(&stripped);
                        if crate::crypto::verify(
                            sig,
                            encoded.as_slice(),
                            &self.validators[k].public_key,
                        ) {
                            return Ok(());
                        } else {
                            return Err(Error::Consensus(ConsensusError::InvalidSignature));
                        }
                    },
                }
            }
            proof {
                assert(self.registry()[k as int].0 == self.validators@[k as int].public_key@);
            }
            k = k + 1;
        }
        proof {
            lemma_find_validator_none(self.registry(), author@);
        }
        Err(Error::Consensus(ConsensusError::InvalidProposer))
    }

    /// Author a block for the round that `now` (seconds since the epoch)
    /// falls in. The caller supplies the chain context — parent hash, block
    /// number, state root and extrinsics root — which this core does not
    /// compute. The attempt fails with NotCurrentProposer when the local
    /// node is not the round's proposer (the caller skips the round); it
    /// then refreshes the registry ranking, converts the raw transactions
    /// (a malformed transaction is a fatal input error), builds a header
    /// carrying a pre-runtime entry with the author's public key, signs the
    /// header's encoding, and seals it with the signature.
    #[verifier::loop_isolation(false)]
    pub fn generate_block(
        &mut self,
        transactions: Vec<Vec<u8>>,
        now: u64,
        parent_hash: [u8; 32],
        number: u64,
        state_root: [u8; 32],
        extrinsics_root: [u8; 32],
    ) -> (r: Result<Block, Error>)
        requires
            old(self).wf(),
        ensures
            final(self).wf(),
            same_ledger(*final(self), *old(self)),
            same_confirmations(*final(self), *old(self)),
            same_config(*final(self), *old(self)),
            !old(self).proposer_spec(now) ==> r == Err::<Block, Error>(
                Error::Consensus(ConsensusError::NotCurrentProposer),
            ) && final(self).registry() == old(self).registry(),
            old(self).proposer_spec(now) ==> final(self).registry() == ranked_registry(
                *old(self),
            ),
            old(self).proposer_spec(now) && (exists|j: int|
                0 <= j < transactions@.len() && !opaque_tx_wf(transactions@[j]@)) ==> r
                == Err::<Block, Error>(Error::BlockValidation),
            old(self).proposer_spec(now) && (forall|j: int|
                0 <= j < transactions@.len() ==> opaque_tx_wf(transactions@[j]@)) ==> (
            r matches Ok(b) && {
                let dvb = digest_view(b.header.digest@);
                &&& b.header.number == number
                &&& b.header.parent_hash@ == parent_hash@
                &&& b.header.state_root@ == state_root@
                &&& b.header.extrinsics_root@ == extrinsics_root@
                &&& b.extrinsics@.len() == transactions@.len()
                &&& dvb.len() == 2
                &&& dvb[0] == (false, engine_zero(), old(self).local_key())
                &&& dvb[1].0 == true
                &&& dvb[1].1 == engine_zero()
                &&& dvb[1].2.len() == 64
                &&& sr25519_verifies(
                    dvb[1].2,
                    b.header.pre_seal_encoding(),
                    old(self).local_key(),
                )
            }),
    {
        if !self.is_current_proposer(now) {
            return Err(Error::Consensus(ConsensusError::NotCurrentProposer));
        }
        let _ = self.update_validators();
        let mut extrinsics: Vec<Transaction> = Vec::new();
        let mut i: usize = 0;
        while i < transactions.len()
            invariant
                i <= transactions@.len(),
                extrinsics@.len() == i,
                forall|j: int| 0 <= j < i ==> opaque_tx_wf(transactions@[j]@),
            decreases transactions@.len() - i,
        {
            match decode_transaction(&transactions[i]) {
                Some(tx) => {
                    extrinsics.push(tx);
                },
                None => {
                    return Err(Error::BlockValidation);
                },
            }
            i = i + 1;
        }
        let author_bytes = copy_bytes(self.key_pair.public_key());
        let engine: [u8; 4] = [0u8, 0u8, 0u8, 0u8];
        proof {
            assert(engine@ =~= engine_zero());
        }
        let mut digest: Vec<DigestEntry> = Vec::new();
        digest.push(DigestEntry::PreRuntime { engine, data: author_bytes });
        let header = create_header(number, parent_hash, state_root, extrinsics_root, digest);
        let ghost pre_entry = (false, engine_zero(), old(self).local_key());
        proof {
            assert(digest_view(header.digest@) =~= seq![pre_entry]);
        }
        let signature = self.sign_header(&header);
        let mut header = header;
        let seal_engine: [u8; 4] = [0u8, 0u8, 0u8, 0u8];
        proof {
            assert(seal_engine@ =~= engine_zero());
        }
        let ghost seal_entry = (true, engine_zero(), signature@);
        header.digest.push(DigestEntry::Seal { engine: seal_engine, data: signature });
        proof {
            let d2 = digest_view(header.digest@);
            let e0 = Seq::<(bool, Seq<u8>, Seq<u8>)>::empty();
            assert(d2 =~= seq![pre_entry, seal_entry]);
            assert(d2.drop_last() =~= seq![pre_entry]);
            assert(seq![pre_entry].drop_last() =~= e0);
            assert(without_seals(e0) =~= e0);
            assert(without_seals(seq![pre_entry]) =~= e0.push(pre_entry));
            assert(e0.push(pre_entry) =~= seq![pre_entry]);
            assert(without_seals(d2) =~= seq![pre_entry]);
        }
        Ok(create_block(header, extrinsics))
    }

    /// Confirm a block under the local node's own identity (derived from its
    /// key pair) and report whether quorum was reached: a single
    /// confirmation attempt plus a quorum check, never a wait. Fails with
    /// FinalizationFailed while the quorum is still pending; the caller
    /// retries once more confirmations have arrived.
    pub fn finalize_block(&mut self, block: &Block) -> (r: Result<(), Error>)
        requires
            old(self).wf(),
        ensures
            final(self).wf(),
            final(self).registry() == old(self).registry(),
            same_ledger(*final(self), *old(self)),
            same_config(*final(self), *old(self)),
            ({
                let h = blake2_256_of(block.header.encoding());
                let me = old(self).local_key();
                &&& forall|h2: Seq<u8>|
                    h2 != h ==> final(self).conf_ids(h2) == old(self).conf_ids(h2)
                        && final(self).conf_finalized(h2) == old(self).conf_finalized(h2)
                &&& forall|h2: Seq<u8>|
                    old(self).conf_finalized(h2) ==> final(self).conf_finalized(h2)
                &&& (old(self).conf_finalized(h) ==> r is Ok && final(self).conf_ids(h) == old(
                    self,
                ).conf_ids(h))
                &&& (!old(self).conf_finalized(h) ==> ({
                    let ids = if old(self).conf_ids(h).contains(me) {
                        old(self).conf_ids(h)
                    } else {
                        old(self).conf_ids(h).push(me)
                    };
                    let fin = ids.len() > old(self).registry().len() * 2 / 3;
                    &&& final(self).conf_ids(h) == ids
                    &&& final(self).conf_finalized(h) == fin
                    &&& r == if fin {
                        Ok::<(), Error>(())
                    } else {
                        Err::<(), Error>(Error::Consensus(ConsensusError::FinalizationFailed))
                    }
                }))
            }),
    {
        let encoded = encode_header(&block.header);
        let block_hash = crate::crypto::hash(encoded.as_slice());
        let validator_id = copy_bytes(self.key_pair.public_key());
        match self.confirm_block(block_hash, validator_id) {
            Ok(true) => Ok(()),
            Ok(false) => Err(Error::Consensus(ConsensusError::FinalizationFailed)),
            Err(e) => Err(e),
        }
    }

    /// Sign a header's canonical encoding with the node's key pair.
    fn sign_header(&self, header: &Header) -> (r: Vec<u8>)
        ensures
            r@.len() == 64,
            sr25519_verifies(r@, header.encoding(), self.local_key()),
    {
        let encoded = encode_header(header);
        crate::crypto::sign(&self.key_pair, encoded.as_slice())
    }
}

/// The round a moment in time falls in: seconds since the epoch divided by
/// the round duration. Every node configured with the same interval computes
/// the same round for the same instant.
pub fn current_round(now: u64, round_interval: u64) -> (r: u64)
    requires
        round_interval >= 1,
    ensures
        r == now / round_interval,
{
    now / round_interval
}

/// Deterministic proposer selection: two engines configured with the same
/// round interval, holding the same registry view and the same local key,
/// answer the proposer question identically for the same time.
pub proof fn lemma_proposer_deterministic(a: DPoS, b: DPoS, now: u64)
    requires
        a.registry() == b.registry(),
        a.interval() == b.interval(),
        a.local_key() == b.local_key(),
    ensures
        a.proposer_spec(now) == b.proposer_spec(now),
{
}

/// Unsigned-block leniency: a block whose digest names a currently ranked
/// author and carries no seal validates successfully.
pub proof fn lemma_unsigned_block_validates(
    vs: Seq<ValidatorInfo>,
    dv: Seq<(bool, Seq<u8>, Seq<u8>)>,
    pre_seal: Seq<u8>,
)
    requires
        last_author(dv) is Some,
        find_validator(vs, last_author(dv)->Some_0) is Some,
        last_seal(dv) is None,
    ensures
        validate_outcome(vs, dv, pre_seal) is Ok,
{
}

} // verus!
