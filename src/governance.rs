//! Governance decrees: guardian-signed messages that reconfigure the bridge.
//! Each decree is checked against the current guardian set and the governance
//! emitter, consumed through the claim ledger, and applied all at once.
use vstd::prelude::*;

use crate::bytes::{all_zero, bytes_eq, read_array20, read_array32, read_be_u16, read_be_u32, read_be_u64, read_u16_be, read_u32_be, read_u64_be};
use crate::claim::{claim_outcome, complete_outcome, is_claimed, Claim, ClaimLedger};
use crate::error::BridgeError;
use crate::guardian_set::{GuardianSet, GuardianSetRegistry};
use crate::posted_vaa::{holds_hash, stored_with, PostedVaaStore, PostedVaaV1Bytes};

verus! {

/// Chain id of this chain.
pub const SOLANA_CHAIN: u16 = 1;

/// Chain of the governance emitter.
pub const GOVERNANCE_CHAIN: u16 = 1;

/// Offset in a governance payload where the action-specific fields begin:
/// after the 32-byte module, the action and the target chain.
pub const GOVERNANCE_DECREE_START: usize = 35;

/// Action code of the decree that sets the message fee.
pub const ACTION_SET_MESSAGE_FEE: u8 = 3;

/// Action code of the decree that installs a new guardian set.
pub const ACTION_GUARDIAN_SET_UPDATE: u8 = 2;

/// Action code of the token-bridge decree that registers a foreign emitter.
pub const ACTION_REGISTER_CHAIN: u8 = 1;

/// Length of a register-chain payload.
pub const REGISTER_CHAIN_PAYLOAD_LEN: usize = 69;

/// Address of the governance emitter: 31 zero bytes and a final 4.
pub fn governance_emitter() -> (r: [u8; 32])
    ensures
        r@ == governance_emitter_spec(),
{
    let mut r: [u8; 32] = [0u8; 32];
    r[31] = 4;
    assert(r@ =~= governance_emitter_spec());
    r
}

pub open spec fn governance_emitter_spec() -> Seq<u8> {
    Seq::new(32, |i: int| if i == 31 { 4u8 } else { 0u8 })
}

/// The module tag of core-bridge decrees: "Core", right-aligned in 32 bytes.
pub fn core_module() -> (r: [u8; 32])
    ensures
        r@ == core_module_spec(),
{
    let mut r: [u8; 32] = [0u8; 32];
    r[28] = 0x43;
    r[29] = 0x6f;
    r[30] = 0x72;
    r[31] = 0x65;
    assert(r@ =~= core_module_spec());
    r
}

pub open spec fn core_module_spec() -> Seq<u8> {
    Seq::new(32, |i: int| if i < 28 { 0u8 } else { seq![0x43u8, 0x6fu8, 0x72u8, 0x65u8][i - 28] })
}

/// The module tag of token-bridge decrees: "TokenBridge", right-aligned in 32
/// bytes.
pub fn token_bridge_module() -> (r: [u8; 32])
    ensures
        r@ == token_bridge_module_spec(),
{
    let mut r: [u8; 32] = [0u8; 32];
    r[21] = 0x54;
    r[22] = 0x6f;
    r[23] = 0x6b;
    r[24] = 0x65;
    r[25] = 0x6e;
    r[26] = 0x42;
    r[27] = 0x72;
    r[28] = 0x69;
    r[29] = 0x64;
    r[30] = 0x67;
    r[31] = 0x65;
    assert(r@ =~= token_bridge_module_spec());
    r
}

pub open spec fn token_bridge_module_spec() -> Seq<u8> {
    Seq::new(
        32,
        |i: int|
            if i < 21 {
                0u8
            } else {
                seq![
                    0x54u8,
                    0x6fu8,
                    0x6bu8,
                    0x65u8,
                    0x6eu8,
                    0x42u8,
                    0x72u8,
                    0x69u8,
                    0x64u8,
                    0x67u8,
                    0x65u8,
                ][i - 21]
            },
    )
}

/// Configuration that governance can change.
#[derive(Debug, Clone, Copy, PartialEq, Eq, Structural)]
pub struct BridgeConfig {
    /// Index of the current guardian set.
    pub guardian_set_index: u32,
    /// Fee for posting a message.
    pub fee_lamports: u64,
    /// How long a superseded guardian set stays valid.
    pub guardian_set_ttl: u32,
}

/// The checks that every decree passes before its action is read: signed by
/// the current guardian set, sent by the governance emitter, addressed to
/// `module` and to this chain (or to all). Gives the action code.
pub open spec fn governance_header(vaa: PostedVaaV1Bytes, config: BridgeConfig, module: Seq<u8>) -> Result<
    u8,
    BridgeError,
> {
    let p = vaa.payload@;
    if vaa.meta.guardian_set_index != config.guardian_set_index {
        Err(BridgeError::GuardianSetMismatch)
    } else if vaa.meta.emitter_chain != GOVERNANCE_CHAIN || vaa.meta.emitter_address@
        != governance_emitter_spec() {
        Err(BridgeError::InvalidGovernanceEmitter)
    } else if p.len() < 35 || p.subrange(0, 32) != module {
        Err(BridgeError::InvalidGovernanceVaa)
    } else if read_be_u16(p, 33) != 0 && read_be_u16(p, 33) != SOLANA_CHAIN {
        Err(BridgeError::GovernanceForAnotherChain)
    } else {
        Ok(p[32])
    }
}

/// Checks the parts common to all decrees and returns the action code.
pub fn require_valid_governance_posted_vaa(
    vaa: &PostedVaaV1Bytes,
    config: &BridgeConfig,
    module: &[u8; 32],
) -> (r: Result<u8, BridgeError>)
    ensures
        r == governance_header(*vaa, *config, module@),
{
    if vaa.meta.guardian_set_index != config.guardian_set_index {
        return Err(BridgeError::GuardianSetMismatch);
    }
    let emitter = governance_emitter();
    if vaa.meta.emitter_chain != GOVERNANCE_CHAIN || !bytes_eq(
        vaa.meta.emitter_address.as_slice(),
        emitter.as_slice(),
    ) {
        return Err(BridgeError::InvalidGovernanceEmitter);
    }
    let p = vaa.payload.as_slice();
    if p.len() < GOVERNANCE_DECREE_START {
        return Err(BridgeError::InvalidGovernanceVaa);
    }
    let tag = read_array32(p, 0);
    if !bytes_eq(tag.as_slice(), module.as_slice()) {
        return Err(BridgeError::InvalidGovernanceVaa);
    }
    let target = read_u16_be(p, 33);
    if target != 0 && target != SOLANA_CHAIN {
        return Err(BridgeError::GovernanceForAnotherChain);
    }
    Ok(p[32])
}

/// The claims after consuming `vaa` and marking its claim complete.
pub open spec fn consumed(claims: Seq<Claim>, vaa: PostedVaaV1Bytes) -> Seq<Claim> {
    complete_outcome(
        claim_outcome(
            claims,
            vaa.meta.emitter_chain,
            vaa.meta.emitter_address,
            vaa.meta.sequence,
        ).unwrap(),
        claims.len() as int,
    )
}

/// Whether the message of `vaa` was consumed already.
pub open spec fn vaa_claimed(claims: Seq<Claim>, vaa: PostedVaaV1Bytes) -> bool {
    is_claimed(claims, vaa.meta.emitter_chain, vaa.meta.emitter_address@, vaa.meta.sequence)
}

/// Consumes the message of `vaa`, which was not consumed before.
pub(crate) fn consume(claims: &mut ClaimLedger, vaa: &PostedVaaV1Bytes)
    requires
        !vaa_claimed(old(claims)@, *vaa),
    ensures
        final(claims)@ == consumed(old(claims)@, *vaa),
{
    let i = match claims.claim(vaa.meta.emitter_chain, vaa.meta.emitter_address, vaa.meta.sequence) {
        Ok(i) => i,
        Err(_) => {
            return;
        },
    };
    claims.complete(i);
}

/// What the set-message-fee decree gives: the new configuration and claims,
/// or the reason it is refused. The payload holds 24 reserved zero bytes and
/// then the fee, big-endian.
pub open spec fn set_message_fee_outcome(
    config: BridgeConfig,
    claims: Seq<Claim>,
    vaa: PostedVaaV1Bytes,
) -> Result<(BridgeConfig, Seq<Claim>), BridgeError> {
    let p = vaa.payload@;
    match governance_header(vaa, config, core_module_spec()) {
        Err(e) => Err(e),
        Ok(action) => if vaa_claimed(claims, vaa) {
            Err(BridgeError::AlreadyClaimed)
        } else if action != ACTION_SET_MESSAGE_FEE {
            Err(BridgeError::InvalidGovernanceAction)
        } else if p.len() < 67 {
            Err(BridgeError::InvalidGovernanceVaa)
        } else if exists|j: int| 35 <= j < 59 && p[j] != 0 {
            Err(BridgeError::InvalidGovernanceAction)
        } else {
            Ok(
                (
                    BridgeConfig { fee_lamports: read_be_u64(p, 59), ..config },
                    consumed(claims, vaa),
                ),
            )
        },
    }
}

/// Applies a set-message-fee decree.
pub fn set_message_fee(
    config: &mut BridgeConfig,
    claims: &mut ClaimLedger,
    posted: &PostedVaaStore,
    hash: &[u8; 32],
) -> (r: Result<(), BridgeError>)
    requires
        posted.wf(),
    ensures
        !holds_hash(posted@, hash@) ==> r == Err::<(), BridgeError>(BridgeError::PostedVaaNotFound) && *final(config) == *old(config) && final(claims)@ == old(claims)@,
        holds_hash(posted@, hash@) ==> match set_message_fee_outcome(*old(config), old(claims)@, stored_with(posted@, hash@)) {
            Ok((c, l)) => r is Ok && *final(config) == c && final(claims)@ == l,
            Err(e) => r == Err::<(), BridgeError>(e) && *final(config) == *old(config) && final(claims)@
                == old(claims)@,
        },
{
    let vaa = match posted.get(hash) {
        Some(v) => v,
        None => {
            return Err(BridgeError::PostedVaaNotFound);
        },
    };
    let module = core_module();
    let action = match require_valid_governance_posted_vaa(vaa, config, &module) {
        Ok(a) => a,
        Err(e) => {
            return Err(e);
        },
    };
    if claims.is_claimed(vaa.meta.emitter_chain, &vaa.meta.emitter_address, vaa.meta.sequence) {
        return Err(BridgeError::AlreadyClaimed);
    }
    if action != ACTION_SET_MESSAGE_FEE {
        return Err(BridgeError::InvalidGovernanceAction);
    }
    let p = vaa.payload.as_slice();
    if p.len() < GOVERNANCE_DECREE_START + 32 {
        return Err(BridgeError::InvalidGovernanceVaa);
    }
    if !all_zero(p, GOVERNANCE_DECREE_START, GOVERNANCE_DECREE_START + 24) {
        return Err(BridgeError::InvalidGovernanceAction);
    }
    consume(claims, vaa);
    config.fee_lamports = read_u64_be(p, GOVERNANCE_DECREE_START + 24);
    Ok(())
}

/// A set-message-fee decree with a non-zero reserved byte is refused; one
/// that was applied is refused when submitted again, through the claim, so the
/// fee it set stays.
pub proof fn lemma_set_message_fee_laws(config: BridgeConfig, claims: Seq<Claim>, vaa: PostedVaaV1Bytes)
    ensures
        (exists|j: int| 35 <= j < 59 && j < vaa.payload@.len() && vaa.payload@[j] != 0)
            ==> set_message_fee_outcome(config, claims, vaa) is Err,
        set_message_fee_outcome(config, claims, vaa) matches Ok((c, l)) ==> set_message_fee_outcome(
            c,
            l,
            vaa,
        ) == Err::<(BridgeConfig, Seq<Claim>), BridgeError>(BridgeError::AlreadyClaimed),
{
    if let Ok((c, l)) = set_message_fee_outcome(config, claims, vaa) {
        let after = claim_outcome(claims, vaa.meta.emitter_chain, vaa.meta.emitter_address, vaa.meta.sequence).unwrap();
        assert(after[claims.len() as int].has_key(
            vaa.meta.emitter_chain,
            vaa.meta.emitter_address@,
            vaa.meta.sequence,
        ));
        assert(l[claims.len() as int].has_key(
            vaa.meta.emitter_chain,
            vaa.meta.emitter_address@,
            vaa.meta.sequence,
        ));
        assert(governance_header(vaa, c, core_module_spec()) == governance_header(vaa, config, core_module_spec()));
    }
}

/// Whether `keys` holds the `n` addresses encoded from `p[40..]`.
pub open spec fn keys_decode(keys: Seq<[u8; 20]>, p: Seq<u8>, n: int) -> bool {
    &&& keys.len() == n
    &&& forall|i: int| 0 <= i < n ==> (#[trigger] keys[i])@ == p.subrange(40 + 20 * i, 60 + 20 * i)
}

/// The error, if any, that refuses a guardian-set update decree. Its payload
/// holds the new index (`u32`), the number of keys (`u8`) and the keys.
pub open spec fn update_guardian_set_error(
    config: BridgeConfig,
    claims: Seq<Claim>,
    vaa: PostedVaaV1Bytes,
) -> Option<BridgeError> {
    let p = vaa.payload@;
    match governance_header(vaa, config, core_module_spec()) {
        Err(e) => Some(e),
        Ok(action) => if vaa_claimed(claims, vaa) {
            Some(BridgeError::AlreadyClaimed)
        } else if action != ACTION_GUARDIAN_SET_UPDATE {
            Some(BridgeError::InvalidGovernanceAction)
        } else if p.len() < 40 || p.len() != 40 + 20 * (p[39] as int) {
            Some(BridgeError::InvalidGovernanceVaa)
        } else if read_be_u32(p, 35) != config.guardian_set_index + 1 {
            Some(BridgeError::InvalidGuardianSetIndex)
        } else if p[39] == 0 {
            Some(BridgeError::EmptyGuardianSet)
        } else {
            None
        },
    }
}

/// Applies a guardian-set update decree at time `now`: the current set
/// expires after the configured grace period and the decoded set becomes
/// current.
pub fn update_guardian_set(
    config: &mut BridgeConfig,
    registry: &mut GuardianSetRegistry,
    claims: &mut ClaimLedger,
    posted: &PostedVaaStore,
    hash: &[u8; 32],
    now: u32,
) -> (r: Result<(), BridgeError>)
    requires
        posted.wf(),
        old(registry).wf(),
        old(registry).spec_current_index() == old(config).guardian_set_index,
    ensures
        final(registry).wf(),
        final(registry).spec_current_index() == final(config).guardian_set_index,
        !holds_hash(posted@, hash@) ==> r == Err::<(), BridgeError>(BridgeError::PostedVaaNotFound) && *final(config) == *old(config) && final(claims)@ == old(claims)@ && final(registry)@ == old(registry)@,
        holds_hash(posted@, hash@) ==> match update_guardian_set_error(*old(config), old(claims)@, stored_with(posted@, hash@)) {
            Some(e) => r == Err::<(), BridgeError>(e) && *final(config) == *old(config) && final(claims)@ == old(claims)@ && final(registry)@ == old(registry)@,
            None => r is Ok,
        },
        r is Ok ==> {
            let p = stored_with(posted@, hash@).payload@;
            let n = old(registry)@.len() as int;
            let prev = old(registry)@[n - 1];
            let new_set = final(registry)@[n];
            &&& *final(config) == BridgeConfig { guardian_set_index: read_be_u32(p, 35), ..*old(config) }
            &&& final(claims)@ == consumed(old(claims)@, stored_with(posted@, hash@))
            &&& final(registry)@.len() == n + 1
            &&& final(registry)@.subrange(0, n - 1) == old(registry)@.subrange(0, n - 1)
            &&& final(registry)@[n - 1] == GuardianSet {
                expiration_time: if now + old(config).guardian_set_ttl > u32::MAX {
                    u32::MAX
                } else {
                    (now + old(config).guardian_set_ttl) as u32
                },
                ..prev
            }
            &&& new_set.index == read_be_u32(p, 35)
            &&& new_set.creation_time == now
            &&& new_set.expiration_time == 0
            &&& keys_decode(new_set.keys@, p, p[39] as int)
        },
{
    let vaa = match posted.get(hash) {
        Some(v) => v,
        None => {
            return Err(BridgeError::PostedVaaNotFound);
        },
    };
    let module = core_module();
    let action = match require_valid_governance_posted_vaa(vaa, config, &module) {
        Ok(a) => a,
        Err(e) => {
            return Err(e);
        },
    };
    if claims.is_claimed(vaa.meta.emitter_chain, &vaa.meta.emitter_address, vaa.meta.sequence) {
        return Err(BridgeError::AlreadyClaimed);
    }
    if action != ACTION_GUARDIAN_SET_UPDATE {
        return Err(BridgeError::InvalidGovernanceAction);
    }
    let p = vaa.payload.as_slice();
    let len: usize = p.len();
    if len < 40 {
        return Err(BridgeError::InvalidGovernanceVaa);
    }
    let n: usize = p[39] as usize;
    if len != 40 + 20 * n {
        return Err(BridgeError::InvalidGovernanceVaa);
    }
    let new_index = read_u32_be(p, 35);
    if config.guardian_set_index == u32::MAX || new_index != config.guardian_set_index + 1 {
        return Err(BridgeError::InvalidGuardianSetIndex);
    }
    if n == 0 {
        return Err(BridgeError::EmptyGuardianSet);
    }
    let mut keys: Vec<[u8; 20]> = Vec::new();
    let mut i: usize = 0;
    while i < n
        invariant
            i <= n,
            len == p@.len(),
            len == 40 + 20 * n,
            keys_decode(keys@, p@, i as int),
        decreases n - i,
    {
        let k = read_array20(p, 40 + 20 * i);
        keys.push(k);
        i = i + 1;
        assert(keys_decode(keys@, p@, i as int)) by {
            assert(keys@[i - 1]@ == p@.subrange(40 + 20 * (i - 1), 60 + 20 * (i - 1)));
        }
    }
    let ghost before = registry@;
    let res = registry.install(new_index, keys, now, config.guardian_set_ttl);
    if res.is_err() {
        return Err(BridgeError::InvalidGuardianSetIndex);
    }
    proof {
        assert(registry@.subrange(0, before.len() - 1) =~= before.subrange(0, before.len() - 1));
    }
    consume(claims, vaa);
    config.guardian_set_index = new_index;
    Ok(())
}

} // verus!
