//! The airdrop: a Merkle root of (index, claimant, amount) leaves, a claim
//! period, and a record of the indexes already claimed.
use crate::codec::{le_bytes, push_all, push_le, lemma_pow256_values};
use crate::types::{bytes_eq, Table};
use sha2::{Digest, Sha256};
use vstd::prelude::*;

verus! {

/// How long claims are open after the root is set, in seconds.
pub const CLAIM_DURATION: u64 = 7889231;

/// The SHA-256 digest of the given bytes.
pub uninterp spec fn sha256(data: Seq<u8>) -> Seq<u8>;

/// Hashes bytes with SHA-256.
///
/// Calls `sha2::Sha256::digest`; the contract claims only that the result is
/// the digest of the input, named `sha256`, and that it has 32 bytes (the
/// digest's fixed output size).
#[verifier::external_body]
fn sha256_digest(data: &[u8]) -> (r: Vec<u8>)
    ensures
        r@ == sha256(data@),
        r@.len() == 32,
{
    Sha256::digest(data).to_vec()
}

/// Byte strings in lexicographic order: the first differing byte decides,
/// and a proper prefix comes first.
pub open spec fn lex_lt(a: Seq<u8>, b: Seq<u8>) -> bool
    decreases a.len(),
{
    if a.len() == 0 {
        b.len() > 0
    } else if b.len() == 0 {
        false
    } else if a[0] != b[0] {
        a[0] < b[0]
    } else {
        lex_lt(a.drop_first(), b.drop_first())
    }
}

/// The bytes of a leaf: the index and the amount little-endian around the
/// claimant's UTF-8 bytes.
pub open spec fn leaf_bytes(index: u32, claimant: Seq<char>, amount: u64) -> Seq<u8> {
    le_bytes(index as nat, 4) + vstd::utf8::encode_utf8(claimant) + le_bytes(amount as nat, 8)
}

/// One step up the tree: the hash of the two nodes, the smaller first.
pub open spec fn parent(hash: Seq<u8>, sibling: Seq<u8>) -> Seq<u8> {
    if lex_lt(hash, sibling) { sha256(hash + sibling) } else { sha256(sibling + hash) }
}

/// The node reached from `leaf_hash` by climbing with the siblings of `proof`.
pub open spec fn climb(leaf_hash: Seq<u8>, proof: Seq<Seq<u8>>) -> Seq<u8>
    decreases proof.len(),
{
    if proof.len() == 0 { leaf_hash } else { parent(climb(leaf_hash, proof.drop_last()), proof.last()) }
}

/// Whether byte string `a` comes before `b`.
fn bytes_lt(a: &[u8], b: &[u8]) -> (r: bool)
    ensures
        r == lex_lt(a@, b@),
{
    let mut i: usize = 0;
    assert(a@.subrange(0, a@.len() as int) =~= a@);
    assert(b@.subrange(0, b@.len() as int) =~= b@);
    while i < a.len() && i < b.len()
        invariant
            i <= a@.len(),
            i <= b@.len(),
            lex_lt(a@.subrange(i as int, a@.len() as int), b@.subrange(i as int, b@.len() as int)) == lex_lt(a@, b@),
        decreases a@.len() - i,
    {
        let ghost sa = a@.subrange(i as int, a@.len() as int);
        let ghost sb = b@.subrange(i as int, b@.len() as int);
        assert(sa.drop_first() =~= a@.subrange(i + 1, a@.len() as int));
        assert(sb.drop_first() =~= b@.subrange(i + 1, b@.len() as int));
        if a[i] != b[i] {
            return a[i] < b[i];
        }
        i = i + 1;
    }
    a.len() - i < b.len() - i
}

/// The airdrop's state.
pub struct AirdropDistributor {
    owner: String,
    merkle_root: Option<Vec<u8>>,
    can_claim_until: Option<u64>,
    claimed_bitmap: Table<u32, bool>,
    token_locker: String,
    vault: String,
}

impl AirdropDistributor {
    pub closed spec fn well_formed(&self) -> bool {
        self.claimed_bitmap.well_formed()
    }

    pub closed spec fn spec_root(&self) -> Option<Seq<u8>> {
        match self.merkle_root {
            Some(r) => Some(r@),
            None => None,
        }
    }

    pub closed spec fn spec_claim_until(&self) -> Option<u64> {
        self.can_claim_until
    }

    pub closed spec fn spec_claimed(&self) -> Map<u32, bool> {
        self.claimed_bitmap.view()
    }

    pub closed spec fn spec_accounts(&self) -> (Seq<char>, Seq<char>, Seq<char>) {
        (self.owner@, self.token_locker@, self.vault@)
    }

    /// Whether `index` was claimed.
    pub open spec fn claimed(&self, index: u32) -> bool {
        self.spec_claimed().contains_key(index) && self.spec_claimed()[index]
    }

    /// Whether claims are open at `now`.
    pub open spec fn claim_open(&self, now: u64) -> bool {
        match self.spec_claim_until() {
            Some(t) => t > now,
            None => false,
        }
    }

    /// Whether `proof` proves the leaf of (`index`, `claimant`, `amount`)
    /// against the root.
    pub open spec fn proves(&self, index: u32, claimant: Seq<char>, amount: u64, proof: Seq<Seq<u8>>) -> bool {
        match self.spec_root() {
            Some(root) => climb(sha256(leaf_bytes(index, claimant, amount)), proof) == root,
            None => false,
        }
    }

    /// An airdrop without a root, closed, with nothing claimed.
    pub fn new(owner: String, token_locker: String, vault: String) -> (r: Self)
        ensures
            r.well_formed(),
            r.spec_root() is None,
            r.spec_claim_until() is None,
            r.spec_claimed() == Map::<u32, bool>::empty(),
            r.spec_accounts() == (owner@, token_locker@, vault@),
    {
        AirdropDistributor {
            owner,
            merkle_root: None,
            can_claim_until: None,
            claimed_bitmap: Table::new(),
            token_locker,
            vault,
        }
    }

    /// Sets the root once, opening claims until the claim duration after `now`.
    pub fn set_merkle_root(&mut self, merkle_root: Vec<u8>, now: u64)
        requires
            old(self).well_formed(),
            old(self).spec_root() is None,
            now + CLAIM_DURATION <= u64::MAX,
        ensures
            final(self).well_formed(),
            final(self).spec_root() == Some(merkle_root@),
            final(self).spec_claim_until() == Some((now + CLAIM_DURATION) as u64),
            final(self).spec_claimed() == old(self).spec_claimed(),
            final(self).spec_accounts() == old(self).spec_accounts(),
    {
        self.merkle_root = Some(merkle_root);
        self.can_claim_until = Some(now + CLAIM_DURATION);
    }

    /// Whether `index` was claimed.
    pub fn is_claimed(&self, index: u32) -> (r: bool)
        requires
            self.well_formed(),
        ensures
            r == self.claimed(index),
    {
        match self.claimed_bitmap.get(&index) {
            Some(c) => *c,
            None => false,
        }
    }

    /// Whether claims are open at `now`.
    pub fn is_claim_period_active(&self, now: u64) -> (r: bool)
        ensures
            r == self.claim_open(now),
    {
        match self.can_claim_until {
            Some(t) => t > now,
            None => false,
        }
    }

    /// Whether `merkle_proof` proves the leaf of (`index`, `claimant`,
    /// `amount`) against the root.
    pub fn verify_merkle_proof(&self, index: u32, claimant: &String, amount: u64, merkle_proof: &Vec<Vec<u8>>) -> (r: bool)
        ensures
            r == self.proves(index, claimant@, amount, merkle_proof@.map_values(|p: Vec<u8>| p@)),
    {
        proof {
            lemma_pow256_values();
        }
        let mut leaf: Vec<u8> = Vec::new();
        push_le(&mut leaf, index as u128, 4);
        push_all(&mut leaf, claimant.as_str().as_bytes());
        push_le(&mut leaf, amount as u128, 8);
        assert(leaf@ =~= leaf_bytes(index, claimant@, amount));
        let leaf_hash = sha256_digest(leaf.as_slice());
        let ghost proof_view = merkle_proof@.map_values(|p: Vec<u8>| p@);
        let mut hash = leaf_hash;
        let mut i: usize = 0;
        while i < merkle_proof.len()
            invariant
                i <= merkle_proof@.len(),
                proof_view == merkle_proof@.map_values(|p: Vec<u8>| p@),
                hash@ == climb(leaf_hash@, proof_view.subrange(0, i as int)),
            decreases merkle_proof@.len() - i,
        {
            let sibling = &merkle_proof[i];
            let mut joined: Vec<u8> = Vec::new();
            if bytes_lt(hash.as_slice(), sibling.as_slice()) {
                push_all(&mut joined, hash.as_slice());
                push_all(&mut joined, sibling.as_slice());
            } else {
                push_all(&mut joined, sibling.as_slice());
                push_all(&mut joined, hash.as_slice());
            }
            proof {
                assert(proof_view.subrange(0, i + 1).drop_last() =~= proof_view.subrange(0, i as int));
                assert(proof_view.subrange(0, i + 1).last() == sibling@);
            }
            hash = sha256_digest(joined.as_slice());
            i = i + 1;
        }
        assert(proof_view.subrange(0, merkle_proof@.len() as int) =~= proof_view);
        match &self.merkle_root {
            Some(root) => bytes_eq(&hash, root),
            None => false,
        }
    }

    /// Claims `amount` for `claimant`, paid to `receiver`, with the proof of
    /// its leaf; a claim whose proof fails is refused and changes nothing.
    pub fn claim(&mut self, index: u32, claimant: String, receiver: String, amount: u64, merkle_proof: Vec<Vec<u8>>, now: u64) -> (r:
        Result<(), &'static str>)
        requires
            old(self).well_formed(),
            old(self).claim_open(now),
            !old(self).claimed(index),
        ensures
            final(self).well_formed(),
            r is Ok <==> old(self).proves(index, claimant@, amount, merkle_proof@.map_values(|p: Vec<u8>| p@)),
            r is Ok ==> final(self).spec_claimed() == old(self).spec_claimed().insert(index, true),
            r matches Err(e) ==> e@ == "Invalid merkle proof"@ && final(self).spec_claimed() == old(self).spec_claimed(),
            final(self).spec_root() == old(self).spec_root(),
            final(self).spec_claim_until() == old(self).spec_claim_until(),
            final(self).spec_accounts() == old(self).spec_accounts(),
    {
        if self.verify_merkle_proof(index, &claimant, amount, &merkle_proof) {
            self.claimed_bitmap.insert(index, true);
            Ok(())
        } else {
            Err("Invalid merkle proof")
        }
    }
}

} // verus!
