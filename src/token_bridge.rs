//! Registration of foreign token bridges by governance decree.
use vstd::prelude::*;

use crate::bytes::{bytes_eq, read_array32, read_be_u16, read_u16_be};
use crate::claim::{Claim, ClaimLedger};
use crate::error::BridgeError;
use crate::governance::{
    consume, consumed, governance_header, require_valid_governance_posted_vaa, token_bridge_module,
    token_bridge_module_spec, vaa_claimed, BridgeConfig, ACTION_REGISTER_CHAIN,
    REGISTER_CHAIN_PAYLOAD_LEN,
};
use crate::posted_vaa::{holds_hash, stored_with, PostedVaaStore, PostedVaaV1Bytes};

verus! {

/// The token bridge of a foreign chain.
pub struct RegisteredEmitter {
    pub chain: u16,
    pub contract: [u8; 32],
}

/// The foreign chain and emitter named by a register-chain payload:
/// `module:32 ∥ action:u8 ∥ target_chain:u16 ∥ foreign_chain:u16 ∥
/// foreign_emitter:32`.
pub open spec fn decree_foreign(p: Seq<u8>) -> Result<(u16, Seq<u8>), BridgeError> {
    if p.len() < 35 || p.subrange(0, 32) != token_bridge_module_spec() {
        Err(BridgeError::InvalidGovernanceVaa)
    } else if p[32] != ACTION_REGISTER_CHAIN {
        Err(BridgeError::InvalidGovernanceAction)
    } else if p.len() != 69 {
        Err(BridgeError::InvalidGovernanceVaa)
    } else {
        Ok((read_be_u16(p, 35), p.subrange(37, 69)))
    }
}

fn check_register_chain_payload(payload: &[u8]) -> (r: Result<(), BridgeError>)
    ensures
        match decree_foreign(payload@) {
            Ok(_) => r is Ok,
            Err(e) => r == Err::<(), BridgeError>(e),
        },
{
    let len: usize = payload.len();
    if len < 35 {
        return Err(BridgeError::InvalidGovernanceVaa);
    }
    let tag = read_array32(payload, 0);
    let module = token_bridge_module();
    if !bytes_eq(tag.as_slice(), module.as_slice()) {
        return Err(BridgeError::InvalidGovernanceVaa);
    }
    if payload[32] != ACTION_REGISTER_CHAIN {
        return Err(BridgeError::InvalidGovernanceAction);
    }
    if len != REGISTER_CHAIN_PAYLOAD_LEN {
        return Err(BridgeError::InvalidGovernanceVaa);
    }
    Ok(())
}

/// The foreign chain named by a register-chain payload.
pub fn try_decree_foreign_chain(payload: &[u8]) -> (r: Result<u16, BridgeError>)
    ensures
        match decree_foreign(payload@) {
            Ok((chain, _)) => r == Ok::<u16, BridgeError>(chain),
            Err(e) => r == Err::<u16, BridgeError>(e),
        },
{
    match check_register_chain_payload(payload) {
        Ok(()) => Ok(read_u16_be(payload, 35)),
        Err(e) => Err(e),
    }
}

/// The foreign emitter named by a register-chain payload.
pub fn try_decree_foreign_emitter(payload: &[u8]) -> (r: Result<[u8; 32], BridgeError>)
    ensures
        match decree_foreign(payload@) {
            Ok((_, emitter)) => r matches Ok(a) && a@ == emitter,
            Err(e) => r == Err::<[u8; 32], BridgeError>(e),
        },
{
    match check_register_chain_payload(payload) {
        Ok(()) => Ok(read_array32(payload, 37)),
        Err(e) => Err(e),
    }
}

/// Whether some record is for `chain`.
pub open spec fn has_chain(s: Seq<RegisteredEmitter>, chain: u16) -> bool {
    exists|i: int| 0 <= i < s.len() && (#[trigger] s[i]).chain == chain
}

/// Whether some record is for `chain` and `contract`.
pub open spec fn has_pair(s: Seq<RegisteredEmitter>, chain: u16, contract: Seq<u8>) -> bool {
    exists|i: int| 0 <= i < s.len() && (#[trigger] s[i]).chain == chain && s[i].contract@ == contract
}

/// Registered foreign token bridges: one canonical record per chain, and the
/// legacy records keyed by chain and emitter that older clients still read.
pub struct RegisteredEmitters {
    current: Vec<RegisteredEmitter>,
    legacy: Vec<RegisteredEmitter>,
}

impl View for RegisteredEmitters {
    type V = (Seq<RegisteredEmitter>, Seq<RegisteredEmitter>);

    closed spec fn view(&self) -> (Seq<RegisteredEmitter>, Seq<RegisteredEmitter>) {
        (self.current@, self.legacy@)
    }
}

/// The error, if any, that refuses a register-chain decree.
pub open spec fn register_chain_error(
    config: BridgeConfig,
    claims: Seq<Claim>,
    emitters: (Seq<RegisteredEmitter>, Seq<RegisteredEmitter>),
    vaa: PostedVaaV1Bytes,
) -> Option<BridgeError> {
    match governance_header(vaa, config, token_bridge_module_spec()) {
        Err(e) => Some(e),
        Ok(_) => if vaa_claimed(claims, vaa) {
            Some(BridgeError::AlreadyClaimed)
        } else {
            match decree_foreign(vaa.payload@) {
                Err(e) => Some(e),
                Ok((chain, emitter)) => if has_chain(emitters.0, chain) || has_pair(
                    emitters.1,
                    chain,
                    emitter,
                ) {
                    Some(BridgeError::EmitterAlreadyRegistered)
                } else {
                    None
                },
            }
        },
    }
}

impl RegisteredEmitters {
    /// At most one canonical record per chain.
    pub closed spec fn wf(&self) -> bool {
        forall|i: int, j: int|
            0 <= i < j < self.current@.len() ==> self.current@[i].chain != self.current@[j].chain
    }

    pub fn new() -> (r: Self)
        ensures
            r.wf(),
            r@.0.len() == 0 && r@.1.len() == 0,
    {
        RegisteredEmitters { current: Vec::new(), legacy: Vec::new() }
    }

    /// The emitter registered for `chain`, if any.
    pub fn get(&self, chain: u16) -> (r: Option<[u8; 32]>)
        requires
            self.wf(),
        ensures
            r is None <==> !has_chain(self@.0, chain),
            r matches Some(a) ==> forall|x: Seq<u8>| has_pair(self@.0, chain, x) <==> x == a@,
    {
        let mut i: usize = 0;
        while i < self.current.len()
            invariant
                self.wf(),
                i <= self.current@.len(),
                forall|j: int| 0 <= j < i ==> (#[trigger] self.current@[j]).chain != chain,
            decreases self.current@.len() - i,
        {
            if self.current[i].chain == chain {
                proof {
                    assert forall|x: Seq<u8>| has_pair(self@.0, chain, x) implies x
                        == self.current@[i as int].contract@ by {
                        let k = choose|k: int|
                            0 <= k < self.current@.len() && (#[trigger] self.current@[k]).chain
                                == chain && self.current@[k].contract@ == x;
                        if k != i {
                            if k < i {
                                assert(self.current@[k].chain != self.current@[i as int].chain);
                            } else {
                                assert(self.current@[i as int].chain != self.current@[k].chain);
                            }
                        }
                    }
                    assert(has_pair(self@.0, chain, self.current@[i as int].contract@));
                }
                return Some(self.current[i].contract);
            }
            i = i + 1;
        }
        None
    }

    fn has_legacy(&self, chain: u16, contract: &[u8; 32]) -> (r: bool)
        ensures
            r == has_pair(self@.1, chain, contract@),
    {
        let mut i: usize = 0;
        while i < self.legacy.len()
            invariant
                i <= self.legacy@.len(),
                forall|j: int|
                    0 <= j < i ==> !((#[trigger] self.legacy@[j]).chain == chain
                        && self.legacy@[j].contract@ == contract@),
            decreases self.legacy@.len() - i,
        {
            if self.legacy[i].chain == chain && bytes_eq(
                self.legacy[i].contract.as_slice(),
                contract.as_slice(),
            ) {
                return true;
            }
            i = i + 1;
        }
        false
    }
}

/// Applies a register-chain decree: writes the canonical record and the legacy
/// record together, or neither.
pub fn register_chain(
    config: &BridgeConfig,
    claims: &mut ClaimLedger,
    emitters: &mut RegisteredEmitters,
    posted: &PostedVaaStore,
    hash: &[u8; 32],
) -> (r: Result<(), BridgeError>)
    requires
        posted.wf(),
        old(emitters).wf(),
    ensures
        final(emitters).wf(),
        !holds_hash(posted@, hash@) ==> r == Err::<(), BridgeError>(BridgeError::PostedVaaNotFound) && final(claims)@ == old(claims)@ && final(emitters)@ == old(emitters)@,
        holds_hash(posted@, hash@) ==> match register_chain_error(*config, old(claims)@, old(emitters)@, stored_with(posted@, hash@)) {
            Some(e) => r == Err::<(), BridgeError>(e) && final(claims)@ == old(claims)@ && final(emitters)@
                == old(emitters)@,
            None => r is Ok,
        },
        r is Ok ==> match decree_foreign(stored_with(posted@, hash@).payload@) {
            Ok((chain, emitter)) => {
                &&& final(claims)@ == consumed(old(claims)@, stored_with(posted@, hash@))
                &&& final(emitters)@.0.len() == old(emitters)@.0.len() + 1
                &&& final(emitters)@.1.len() == old(emitters)@.1.len() + 1
                &&& final(emitters)@.0.drop_last() == old(emitters)@.0
                &&& final(emitters)@.1.drop_last() == old(emitters)@.1
                &&& final(emitters)@.0.last().chain == chain
                &&& final(emitters)@.0.last().contract@ == emitter
                &&& final(emitters)@.1.last() == final(emitters)@.0.last()
            },
            Err(_) => false,
        },
{
    let vaa = match posted.get(hash) {
        Some(v) => v,
        None => {
            return Err(BridgeError::PostedVaaNotFound);
        },
    };
    let module = token_bridge_module();
    match require_valid_governance_posted_vaa(vaa, config, &module) {
        Ok(_) => {},
        Err(e) => {
            return Err(e);
        },
    }
    if claims.is_claimed(vaa.meta.emitter_chain, &vaa.meta.emitter_address, vaa.meta.sequence) {
        return Err(BridgeError::AlreadyClaimed);
    }
    let p = vaa.payload.as_slice();
    let chain = match try_decree_foreign_chain(p) {
        Ok(c) => c,
        Err(e) => {
            return Err(e);
        },
    };
    let contract = match try_decree_foreign_emitter(p) {
        Ok(a) => a,
        Err(e) => {
            return Err(e);
        },
    };
    if emitters.get(chain).is_some() || emitters.has_legacy(chain, &contract) {
        return Err(BridgeError::EmitterAlreadyRegistered);
    }
    consume(claims, vaa);
    let ghost (c0, l0) = emitters@;
    emitters.current.push(RegisteredEmitter { chain, contract });
    emitters.legacy.push(RegisteredEmitter { chain, contract });
    assert(emitters@.0.drop_last() =~= c0);
    assert forall|a: int, b: int|
        0 <= a < b < emitters.current@.len() implies emitters.current@[a].chain
        != emitters.current@[b].chain by {
        if b == c0.len() {
            assert(emitters.current@[a] == c0[a]);
        }
    }
    assert(emitters@.1.drop_last() =~= l0);
    Ok(())
}

} // verus!
