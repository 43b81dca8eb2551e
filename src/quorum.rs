//! Quorum verification of guardian signatures.
use vstd::prelude::*;

use crate::bytes::bytes_eq;
use crate::crypto::{recover_address, recovered_address};
use crate::error::BridgeError;
use crate::guardian_set::GuardianSet;
use crate::vaa::GuardianSignature;

verus! {

/// Signatures needed from a set of `n` guardians: more than two thirds.
pub open spec fn quorum(n: int) -> int {
    (2 * n) / 3 + 1
}

/// Signatures needed from a set of `num_guardians` guardians.
pub fn quorum_of(num_guardians: usize) -> (r: usize)
    ensures
        r == quorum(num_guardians as int),
{
    let n = num_guardians;
    let r: usize = n / 3 * 2 + (n % 3) * 2 / 3 + 1;
    assert(r == (2 * n) / 3 + 1) by (nonlinear_arith)
        requires
            r == n / 3 * 2 + (n % 3) * 2 / 3 + 1,
    ;
    r
}

/// Whether every signature names a guardian of the set, in strictly
/// increasing order.
pub open spec fn indices_ok(set: GuardianSet, sigs: Seq<GuardianSignature>) -> bool {
    &&& forall|i: int|
        0 <= i < sigs.len() ==> (#[trigger] sigs[i].guardian_index as int) < set.keys@.len()
    &&& forall|i: int|
        0 < i < sigs.len() ==> sigs[i - 1].guardian_index < #[trigger] sigs[i].guardian_index
}

/// Whether each signature recovered to the key of the guardian it names.
pub open spec fn signers_ok(
    set: GuardianSet,
    sigs: Seq<GuardianSignature>,
    recovered: Seq<Option<Seq<u8>>>,
) -> bool {
    forall|i: int|
        0 <= i < sigs.len() ==> #[trigger] recovered[i] == Some(
            set.keys@[sigs[i].guardian_index as int]@,
        )
}

/// What verifying `sigs` against `set` at time `now` gives, where
/// `recovered[i]` is the signer recovered from `sigs[i]`.
pub open spec fn verification_outcome(
    set: GuardianSet,
    now: u32,
    sigs: Seq<GuardianSignature>,
    recovered: Seq<Option<Seq<u8>>>,
) -> Result<(), BridgeError> {
    if !set.active_at(now) {
        Err(BridgeError::GuardianSetExpired)
    } else if !indices_ok(set, sigs) {
        Err(BridgeError::InvalidGuardianIndex)
    } else if !signers_ok(set, sigs, recovered) {
        Err(BridgeError::InvalidSignature)
    } else if sigs.len() < quorum(set.keys@.len() as int) {
        Err(BridgeError::QuorumNotMet)
    } else {
        Ok(())
    }
}

/// Views of recovered addresses.
pub open spec fn address_views(v: Seq<Option<[u8; 20]>>) -> Seq<Option<Seq<u8>>> {
    Seq::new(
        v.len(),
        |i: int|
            match v[i] {
                Some(a) => Some(a@),
                None => None,
            },
    )
}

/// Whether a recovered address is the view `s`.
pub open spec fn address_matches(o: Option<[u8; 20]>, s: Option<Seq<u8>>) -> bool {
    match o {
        Some(a) => s == Some(a@),
        None => s is None,
    }
}

/// The addresses recovered from each signature over `hash`.
pub open spec fn recovered_signers(hash: Seq<u8>, sigs: Seq<GuardianSignature>) -> Seq<
    Option<Seq<u8>>,
> {
    Seq::new(
        sigs.len(),
        |i: int| recovered_address(hash, sigs[i].recovery_id, sigs[i].signature@),
    )
}

/// Verification succeeds exactly when the set is active, the guardian indices
/// are distinct and increasing, every signature is valid, and there are at
/// least `floor(2n/3) + 1` of them; with everything else valid, one signature
/// fewer than that fails with `QuorumNotMet`.
pub proof fn lemma_quorum_boundary(
    set: GuardianSet,
    now: u32,
    sigs: Seq<GuardianSignature>,
    recovered: Seq<Option<Seq<u8>>>,
)
    ensures
        verification_outcome(set, now, sigs, recovered) is Ok <==> {
            &&& set.active_at(now)
            &&& indices_ok(set, sigs)
            &&& signers_ok(set, sigs, recovered)
            &&& sigs.len() >= quorum(set.keys@.len() as int)
        },
        set.active_at(now) && indices_ok(set, sigs) && signers_ok(set, sigs, recovered) && sigs.len()
            == quorum(set.keys@.len() as int) - 1 ==> verification_outcome(set, now, sigs, recovered)
            == Err::<(), BridgeError>(BridgeError::QuorumNotMet),
{
}

/// Checks signatures whose signers were already recovered: `recovered[i]` is
/// the address that signed `sigs[i]`, if any.
pub fn verify_recovered(
    set: &GuardianSet,
    now: u32,
    sigs: &Vec<GuardianSignature>,
    recovered: &Vec<Option<[u8; 20]>>,
) -> (r: Result<(), BridgeError>)
    requires
        recovered@.len() == sigs@.len(),
    ensures
        r == verification_outcome(*set, now, sigs@, address_views(recovered@)),
{
    if !set.is_active(&now) {
        return Err(BridgeError::GuardianSetExpired);
    }
    let n: usize = sigs.len();
    let nkeys: usize = set.keys.len();
    let mut i: usize = 0;
    while i < n
        invariant
            n == sigs@.len(),
            nkeys == set.keys@.len(),
            set.active_at(now),
            i <= n,
            forall|j: int| 0 <= j < i ==> (#[trigger] sigs@[j].guardian_index as int) < nkeys,
            forall|j: int|
                0 < j < i ==> sigs@[j - 1].guardian_index < #[trigger] sigs@[j].guardian_index,
        decreases n - i,
    {
        if sigs[i].guardian_index as usize >= nkeys {
            assert(!((sigs@[i as int].guardian_index as int) < set.keys@.len()));
            return Err(BridgeError::InvalidGuardianIndex);
        }
        if i > 0 && sigs[i - 1].guardian_index >= sigs[i].guardian_index {
            assert(!(sigs@[i - 1].guardian_index < sigs@[i as int].guardian_index));
            return Err(BridgeError::InvalidGuardianIndex);
        }
        i = i + 1;
    }
    let ghost rv = address_views(recovered@);
    let mut k: usize = 0;
    while k < n
        invariant
            n == sigs@.len(),
            n == recovered@.len(),
            nkeys == set.keys@.len(),
            set.active_at(now),
            k <= n,
            rv == address_views(recovered@),
            indices_ok(*set, sigs@),
            forall|j: int|
                0 <= j < k ==> #[trigger] rv[j] == Some(set.keys@[sigs@[j].guardian_index as int]@),
        decreases n - k,
    {
        let idx: usize = sigs[k].guardian_index as usize;
        assert((sigs@[k as int].guardian_index as int) < nkeys);
        match &recovered[k] {
            Some(addr) => {
                if !bytes_eq(addr.as_slice(), set.keys[idx].as_slice()) {
                    assert(rv[k as int] == Some(addr@));
                    assert(rv[k as int] != Some(set.keys@[sigs@[k as int].guardian_index as int]@));
                    return Err(BridgeError::InvalidSignature);
                }
                assert(rv[k as int] == Some(addr@));
            },
            None => {
                assert(rv[k as int] is None);
                return Err(BridgeError::InvalidSignature);
            },
        }
        k = k + 1;
    }
    if n < quorum_of(nkeys) {
        return Err(BridgeError::QuorumNotMet);
    }
    Ok(())
}

/// The outcome of verifying signatures over a message hash.
pub struct SignatureSet {
    /// Index of the guardian set that verified the signatures.
    pub guardian_set_index: u32,
    /// Hash of the message that was signed.
    pub message_hash: [u8; 32],
    /// The guardians that signed, in increasing order.
    pub guardian_indices: Vec<u8>,
}

/// Recovers the signer of each signature over `hash` and checks the result
/// against `set` at time `now`.
pub fn verify_signatures(
    set: &GuardianSet,
    now: u32,
    hash: &[u8; 32],
    sigs: &Vec<GuardianSignature>,
) -> (r: Result<SignatureSet, BridgeError>)
    ensures
        match verification_outcome(*set, now, sigs@, recovered_signers(hash@, sigs@)) {
            Ok(_) => r is Ok,
            Err(e) => r == Err::<SignatureSet, BridgeError>(e),
        },
        r matches Ok(ss) ==> {
            &&& ss.guardian_set_index == set.index
            &&& ss.message_hash@ == hash@
            &&& ss.guardian_indices@ == sigs@.map_values(|s: GuardianSignature| s.guardian_index)
        },
{
    let n: usize = sigs.len();
    let mut recovered: Vec<Option<[u8; 20]>> = Vec::new();
    let mut indices: Vec<u8> = Vec::new();
    let mut i: usize = 0;
    while i < n
        invariant
            n == sigs@.len(),
            i <= n,
            recovered@.len() == i,
            indices@.len() == i,
            forall|j: int|
                0 <= j < i ==> #[trigger] address_matches(recovered@[j], recovered_signers(
                    hash@,
                    sigs@,
                )[j]),
            forall|j: int| 0 <= j < i ==> #[trigger] indices@[j] == sigs@[j].guardian_index,
        decreases n - i,
    {
        let s = &sigs[i];
        let a = recover_address(hash, s.recovery_id, s.signature.as_slice());
        recovered.push(a);
        indices.push(s.guardian_index);
        i = i + 1;
    }
    assert(address_views(recovered@) =~= recovered_signers(hash@, sigs@)) by {
        assert forall|j: int| 0 <= j < n implies address_views(recovered@)[j] == recovered_signers(
            hash@,
            sigs@,
        )[j] by {
            assert(address_matches(recovered@[j], recovered_signers(hash@, sigs@)[j]));
        }
    }
    assert(indices@ =~= sigs@.map_values(|s: GuardianSignature| s.guardian_index));
    match verify_recovered(set, now, sigs, &recovered) {
        Ok(()) => Ok(SignatureSet { guardian_set_index: set.index, message_hash: *hash, guardian_indices: indices }),
        Err(e) => Err(e),
    }
}

} // verus!
