//! Replay protection: each (emitter chain, emitter address, sequence) is
//! consumed at most once.
use vstd::prelude::*;

use crate::bytes::bytes_eq;
use crate::error::BridgeError;

verus! {

/// The record that a message was consumed.
pub struct Claim {
    pub emitter_chain: u16,
    pub emitter_address: [u8; 32],
    pub sequence: u64,
    /// Set once the action of the message was carried out; never cleared.
    pub is_complete: bool,
}

impl Claim {
    pub open spec fn has_key(&self, chain: u16, address: Seq<u8>, sequence: u64) -> bool {
        self.emitter_chain == chain && self.emitter_address@ == address && self.sequence == sequence
    }
}

/// Whether `claims` holds a claim for the key.
pub open spec fn is_claimed(claims: Seq<Claim>, chain: u16, address: Seq<u8>, sequence: u64) -> bool {
    exists|i: int| 0 <= i < claims.len() && (#[trigger] claims[i]).has_key(chain, address, sequence)
}

/// The claims after claiming the key, or `None` when it was already claimed.
pub open spec fn claim_outcome(claims: Seq<Claim>, chain: u16, address: [u8; 32], sequence: u64) -> Option<
    Seq<Claim>,
> {
    if is_claimed(claims, chain, address@, sequence) {
        None
    } else {
        Some(
            claims.push(
                Claim {
                    emitter_chain: chain,
                    emitter_address: address,
                    sequence,
                    is_complete: false,
                },
            ),
        )
    }
}

/// The claims after marking the claim at `index` complete.
pub open spec fn complete_outcome(claims: Seq<Claim>, index: int) -> Seq<Claim> {
    claims.update(index, Claim { is_complete: true, ..claims[index] })
}

/// A key can be claimed exactly when it was not claimed before, and a second
/// claim of the same key fails.
pub proof fn lemma_claim_at_most_once(
    claims: Seq<Claim>,
    chain: u16,
    address: [u8; 32],
    sequence: u64,
)
    ensures
        claim_outcome(claims, chain, address, sequence) is Some <==> !is_claimed(
            claims,
            chain,
            address@,
            sequence,
        ),
        claim_outcome(claims, chain, address, sequence) matches Some(after) ==> claim_outcome(
            after,
            chain,
            address,
            sequence,
        ) is None,
{
    if let Some(after) = claim_outcome(claims, chain, address, sequence) {
        assert(after[claims.len() as int].has_key(chain, address@, sequence));
    }
}

/// Once a key is claimed it stays claimed, whatever other claims are made or
/// completed in between.
pub proof fn lemma_claim_persists(
    claims: Seq<Claim>,
    chain: u16,
    address: Seq<u8>,
    sequence: u64,
    other_chain: u16,
    other_address: [u8; 32],
    other_sequence: u64,
    index: int,
)
    requires
        is_claimed(claims, chain, address, sequence),
    ensures
        claim_outcome(claims, other_chain, other_address, other_sequence) matches Some(after)
            ==> is_claimed(after, chain, address, sequence),
        0 <= index < claims.len() ==> is_claimed(
            complete_outcome(claims, index),
            chain,
            address,
            sequence,
        ),
{
    let i = choose|i: int| 0 <= i < claims.len() && (#[trigger] claims[i]).has_key(chain, address, sequence);
    if let Some(after) = claim_outcome(claims, other_chain, other_address, other_sequence) {
        assert(after[i] == claims[i]);
    }
    if 0 <= index < claims.len() {
        assert(complete_outcome(claims, index)[i].has_key(chain, address, sequence));
    }
}

/// The claims made so far.
pub struct ClaimLedger {
    claims: Vec<Claim>,
}

impl View for ClaimLedger {
    type V = Seq<Claim>;

    closed spec fn view(&self) -> Seq<Claim> {
        self.claims@
    }
}

impl ClaimLedger {
    pub fn new() -> (r: Self)
        ensures
            r@ == Seq::<Claim>::empty(),
    {
        let r = ClaimLedger { claims: Vec::new() };
        assert(r@ =~= Seq::<Claim>::empty());
        r
    }

    /// Number of claims.
    pub fn len(&self) -> (r: usize)
        ensures
            r == self@.len(),
    {
        self.claims.len()
    }

    /// The claim at `index`.
    pub fn get(&self, index: usize) -> (r: &Claim)
        requires
            index < self@.len(),
        ensures
            *r == self@[index as int],
    {
        &self.claims[index]
    }

    /// Whether the key has been claimed.
    pub fn is_claimed(&self, chain: u16, address: &[u8; 32], sequence: u64) -> (r: bool)
        ensures
            r == is_claimed(self@, chain, address@, sequence),
    {
        let mut i: usize = 0;
        while i < self.claims.len()
            invariant
                i <= self.claims@.len(),
                forall|j: int| 0 <= j < i ==> !(#[trigger] self.claims@[j]).has_key(chain, address@, sequence),
            decreases self.claims@.len() - i,
        {
            let c = &self.claims[i];
            if c.emitter_chain == chain && c.sequence == sequence && bytes_eq(
                c.emitter_address.as_slice(),
                address.as_slice(),
            ) {
                return true;
            }
            i = i + 1;
        }
        false
    }

    /// Claims the key in one step: fails with `AlreadyClaimed` when it was
    /// claimed before, and otherwise records an incomplete claim and returns
    /// its position.
    pub fn claim(&mut self, chain: u16, address: [u8; 32], sequence: u64) -> (r: Result<usize, BridgeError>)
        ensures
            match claim_outcome(old(self)@, chain, address, sequence) {
                None => r == Err::<usize, BridgeError>(BridgeError::AlreadyClaimed) && final(self)@
                    == old(self)@,
                Some(after) => r matches Ok(i) && i == old(self)@.len() && final(self)@ == after,
            },
            is_claimed(final(self)@, chain, address@, sequence),
            forall|c: u16, a: Seq<u8>, s: u64|
                #[trigger] is_claimed(old(self)@, c, a, s) ==> is_claimed(final(self)@, c, a, s),
    {
        if self.is_claimed(chain, &address, sequence) {
            return Err(BridgeError::AlreadyClaimed);
        }
        let i = self.claims.len();
        let ghost before = self@;
        self.claims.push(Claim { emitter_chain: chain, emitter_address: address, sequence, is_complete: false });
        assert(self@[i as int].has_key(chain, address@, sequence));
        assert forall|c: u16, a: Seq<u8>, s: u64| #[trigger] is_claimed(before, c, a, s) implies is_claimed(
            self@,
            c,
            a,
            s,
        ) by {
            let k = choose|k: int| 0 <= k < before.len() && (#[trigger] before[k]).has_key(c, a, s);
            assert(self@[k] == before[k]);
        }
        Ok(i)
    }

    /// Marks the claim at `index` complete; doing it again changes nothing.
    pub fn complete(&mut self, index: usize)
        requires
            index < old(self)@.len(),
        ensures
            final(self)@ == complete_outcome(old(self)@, index as int),
            forall|c: u16, a: Seq<u8>, s: u64|
                #[trigger] is_claimed(final(self)@, c, a, s) == is_claimed(old(self)@, c, a, s),
    {
        let mut c = self.claims.remove(index);
        c.is_complete = true;
        self.claims.insert(index, c);
        assert(self.claims@ =~= complete_outcome(old(self)@, index as int));
        assert forall|c: u16, a: Seq<u8>, s: u64|
            #[trigger] is_claimed(self@, c, a, s) == is_claimed(old(self)@, c, a, s) by {
            if is_claimed(old(self)@, c, a, s) {
                let k = choose|k: int|
                    0 <= k < old(self)@.len() && (#[trigger] old(self)@[k]).has_key(c, a, s);
                assert(self@[k].has_key(c, a, s));
            }
            if is_claimed(self@, c, a, s) {
                let k = choose|k: int| 0 <= k < self@.len() && (#[trigger] self@[k]).has_key(c, a, s);
                assert(old(self)@[k].has_key(c, a, s));
            }
        }
    }
}

} // verus!
