use wormhole_bridge::claim::ClaimLedger;
use wormhole_bridge::error::BridgeError;
use wormhole_bridge::governance::{
    core_module, governance_emitter, require_valid_governance_posted_vaa, set_message_fee,
    token_bridge_module, update_guardian_set, BridgeConfig,
};
use wormhole_bridge::guardian_set::GuardianSetRegistry;
use wormhole_bridge::posted_vaa::{PostedVaaStore, PostedVaaV1Bytes, PostedVaaV1Metadata, VaaV1Account};
use wormhole_bridge::token::{
    cap_decimals, is_native_mint, new_sender_address, normalize_amount, require_native_mint,
    string_to_fixed32, truncate_amount, Mint, TruncateAmount, MINT_AUTHORITY_SEED_PREFIX,
    PROGRAM_SENDER_SEED_PREFIX, TOKEN_BRIDGE_PROGRAM_ID, TOKEN_PROGRAM_ID,
};
use wormhole_bridge::token_bridge::{
    register_chain, try_decree_foreign_chain, try_decree_foreign_emitter, RegisteredEmitters,
};

fn config() -> BridgeConfig {
    BridgeConfig { guardian_set_index: 0, fee_lamports: 100, guardian_set_ttl: 86400 }
}

fn governance_vaa(sequence: u64, payload: Vec<u8>) -> PostedVaaV1Bytes {
    PostedVaaV1Bytes {
        meta: PostedVaaV1Metadata {
            consistency_level: 1,
            timestamp: 0,
            signature_set: [1; 32],
            guardian_set_index: 0,
            nonce: 0,
            sequence,
            emitter_chain: 1,
            emitter_address: governance_emitter(),
        },
        payload,
    }
}

fn decree(module: [u8; 32], action: u8, chain: u16, fields: &[u8]) -> Vec<u8> {
    let mut p = module.to_vec();
    p.push(action);
    p.extend_from_slice(&chain.to_be_bytes());
    p.extend_from_slice(fields);
    p
}

fn fee_payload(fee: u64) -> Vec<u8> {
    let mut f = vec![0u8; 24];
    f.extend_from_slice(&fee.to_be_bytes());
    decree(core_module(), 3, 0, &f)
}

#[test]
fn module_tags_and_emitter() {
    let mut core = [0u8; 32];
    core[28..].copy_from_slice(b"Core");
    assert_eq!(core_module(), core);
    let mut tb = [0u8; 32];
    tb[21..].copy_from_slice(b"TokenBridge");
    assert_eq!(token_bridge_module(), tb);
    let mut e = [0u8; 32];
    e[31] = 4;
    assert_eq!(governance_emitter(), e);
}

#[test]
fn set_message_fee_applies_once() {
    let mut cfg = config();
    let mut claims = ClaimLedger::new();
    let vaa = governance_vaa(1, fee_payload(0x0102030405060708));
    assert_eq!(set_message_fee(&mut cfg, &mut claims, &st(&vaa), &hs(&vaa)), Ok(()));
    assert_eq!(cfg.fee_lamports, 0x0102030405060708);
    assert_eq!(claims.len(), 1);
    assert!(claims.get(0).is_complete);
    assert_eq!(set_message_fee(&mut cfg, &mut claims, &st(&vaa), &hs(&vaa)), Err(BridgeError::AlreadyClaimed));
    assert_eq!(cfg.fee_lamports, 0x0102030405060708);
    assert_eq!(claims.len(), 1);
}

#[test]
fn decree_must_be_posted() {
    let mut cfg = config();
    let mut claims = ClaimLedger::new();
    let vaa = governance_vaa(1, fee_payload(9));
    let empty = PostedVaaStore::new();
    assert_eq!(set_message_fee(&mut cfg, &mut claims, &empty, &hs(&vaa)), Err(BridgeError::PostedVaaNotFound));
    let mut other = vaa.clone();
    other.meta.sequence = 2;
    assert_eq!(set_message_fee(&mut cfg, &mut claims, &st(&other), &hs(&vaa)), Err(BridgeError::PostedVaaNotFound));
    assert_eq!(cfg, config());
    assert_eq!(claims.len(), 0);
}

#[test]
fn set_message_fee_rejects_non_zero_reserved_bytes() {
    for at in [35usize, 47, 58] {
        let mut cfg = config();
        let mut claims = ClaimLedger::new();
        let mut p = fee_payload(5);
        p[at] = 1;
        let vaa = governance_vaa(1, p);
        assert_eq!(set_message_fee(&mut cfg, &mut claims, &st(&vaa), &hs(&vaa)), Err(BridgeError::InvalidGovernanceAction));
        assert_eq!(cfg, config());
        assert_eq!(claims.len(), 0);
    }
}

#[test]
fn set_message_fee_rejects_bad_headers() {
    let mut cfg = config();
    let mut claims = ClaimLedger::new();
    let mut vaa = governance_vaa(1, fee_payload(5));
    vaa.meta.guardian_set_index = 1;
    assert_eq!(set_message_fee(&mut cfg, &mut claims, &st(&vaa), &hs(&vaa)), Err(BridgeError::GuardianSetMismatch));
    let mut vaa = governance_vaa(1, fee_payload(5));
    vaa.meta.emitter_chain = 2;
    assert_eq!(set_message_fee(&mut cfg, &mut claims, &st(&vaa), &hs(&vaa)), Err(BridgeError::InvalidGovernanceEmitter));
    let vaa = governance_vaa(1, decree(token_bridge_module(), 3, 0, &[0; 32]));
    assert_eq!(set_message_fee(&mut cfg, &mut claims, &st(&vaa), &hs(&vaa)), Err(BridgeError::InvalidGovernanceVaa));
    let vaa = governance_vaa(1, decree(core_module(), 3, 2, &[0; 32]));
    assert_eq!(set_message_fee(&mut cfg, &mut claims, &st(&vaa), &hs(&vaa)), Err(BridgeError::GovernanceForAnotherChain));
    let vaa = governance_vaa(1, decree(core_module(), 4, 1, &[0; 32]));
    assert_eq!(set_message_fee(&mut cfg, &mut claims, &st(&vaa), &hs(&vaa)), Err(BridgeError::InvalidGovernanceAction));
    let vaa = governance_vaa(1, decree(core_module(), 3, 1, &[0; 31]));
    assert_eq!(set_message_fee(&mut cfg, &mut claims, &st(&vaa), &hs(&vaa)), Err(BridgeError::InvalidGovernanceVaa));
    assert_eq!(cfg, config());
    assert_eq!(claims.len(), 0);
    let vaa = governance_vaa(1, decree(core_module(), 3, 1, &[0; 32]));
    assert_eq!(set_message_fee(&mut cfg, &mut claims, &st(&vaa), &hs(&vaa)), Ok(()));
    assert_eq!(cfg.fee_lamports, 0);
}

#[test]
fn governance_header_gives_the_action() {
    let vaa = governance_vaa(1, decree(core_module(), 9, 0, &[]));
    assert_eq!(require_valid_governance_posted_vaa(&vaa, &config(), &core_module()), Ok(9));
    let vaa = governance_vaa(1, decree(core_module(), 9, 0, &[])[..34].to_vec());
    assert_eq!(require_valid_governance_posted_vaa(&vaa, &config(), &core_module()), Err(BridgeError::InvalidGovernanceVaa));
}

fn guardian_update_payload(index: u32, keys: &[[u8; 20]]) -> Vec<u8> {
    let mut f = index.to_be_bytes().to_vec();
    f.push(keys.len() as u8);
    for k in keys {
        f.extend_from_slice(k);
    }
    decree(core_module(), 2, 0, &f)
}

#[test]
fn guardian_set_update_decree() {
    let mut cfg = config();
    let mut reg = GuardianSetRegistry::new(vec![[1; 20]], 0).ok().unwrap();
    let mut claims = ClaimLedger::new();
    let bad = governance_vaa(1, guardian_update_payload(2, &[[2; 20]]));
    assert_eq!(update_guardian_set(&mut cfg, &mut reg, &mut claims, &st(&bad), &hs(&bad), 1000), Err(BridgeError::InvalidGuardianSetIndex));
    let empty = governance_vaa(2, guardian_update_payload(1, &[]));
    assert_eq!(update_guardian_set(&mut cfg, &mut reg, &mut claims, &st(&empty), &hs(&empty), 1000), Err(BridgeError::EmptyGuardianSet));
    let mut short = guardian_update_payload(1, &[[2; 20]]);
    short.pop();
    let short = governance_vaa(3, short);
    assert_eq!(update_guardian_set(&mut cfg, &mut reg, &mut claims, &st(&short), &hs(&short), 1000), Err(BridgeError::InvalidGovernanceVaa));
    let good = governance_vaa(4, guardian_update_payload(1, &[[2; 20], [3; 20]]));
    assert_eq!(update_guardian_set(&mut cfg, &mut reg, &mut claims, &st(&good), &hs(&good), 1000), Ok(()));
    assert_eq!(cfg.guardian_set_index, 1);
    assert_eq!(reg.current_index(), 1);
    assert_eq!(reg.get(0).unwrap().expiration_time, 1000 + 86400);
    assert_eq!(reg.get(1).unwrap().keys, vec![[2; 20], [3; 20]]);
    assert_eq!(reg.get(1).unwrap().creation_time, 1000);
    let mut replay = governance_vaa(4, guardian_update_payload(2, &[[4; 20]]));
    replay.meta.guardian_set_index = 1;
    assert_eq!(update_guardian_set(&mut cfg, &mut reg, &mut claims, &st(&replay), &hs(&replay), 2000), Err(BridgeError::AlreadyClaimed));
    let stale = governance_vaa(5, guardian_update_payload(2, &[[4; 20]]));
    assert_eq!(update_guardian_set(&mut cfg, &mut reg, &mut claims, &st(&stale), &hs(&stale), 2000), Err(BridgeError::GuardianSetMismatch));
}

fn register_payload(chain: u16, emitter: [u8; 32]) -> Vec<u8> {
    let mut f = chain.to_be_bytes().to_vec();
    f.extend_from_slice(&emitter);
    decree(token_bridge_module(), 1, 0, &f)
}

#[test]
fn register_chain_writes_both_records() {
    let cfg = config();
    let mut claims = ClaimLedger::new();
    let mut emitters = RegisteredEmitters::new();
    let vaa = governance_vaa(1, register_payload(2, [8; 32]));
    assert_eq!(register_chain(&cfg, &mut claims, &mut emitters, &st(&vaa), &hs(&vaa)), Ok(()));
    assert_eq!(emitters.get(2), Some([8; 32]));
    assert_eq!(emitters.get(3), None);
    assert_eq!(register_chain(&cfg, &mut claims, &mut emitters, &st(&vaa), &hs(&vaa)), Err(BridgeError::AlreadyClaimed));
    let again = governance_vaa(2, register_payload(2, [9; 32]));
    assert_eq!(register_chain(&cfg, &mut claims, &mut emitters, &st(&again), &hs(&again)), Err(BridgeError::EmitterAlreadyRegistered));
    assert_eq!(emitters.get(2), Some([8; 32]));
    assert_eq!(claims.len(), 1);
}

#[test]
fn register_chain_payload_fields() {
    let p = register_payload(0x1234, [6; 32]);
    assert_eq!(try_decree_foreign_chain(&p), Ok(0x1234));
    assert_eq!(try_decree_foreign_emitter(&p), Ok([6; 32]));
    let wrong_action = decree(token_bridge_module(), 2, 0, &[0; 34]);
    assert_eq!(try_decree_foreign_chain(&wrong_action), Err(BridgeError::InvalidGovernanceAction));
    let wrong_module = decree(core_module(), 1, 0, &[0; 34]);
    assert_eq!(try_decree_foreign_emitter(&wrong_module), Err(BridgeError::InvalidGovernanceVaa));
    assert_eq!(try_decree_foreign_chain(&p[..68]), Err(BridgeError::InvalidGovernanceVaa));
}

fn mint_data(authority: Option<[u8; 32]>, supply: u64, decimals: u8, initialized: bool) -> Vec<u8> {
    let mut d = vec![0u8; 82];
    if let Some(a) = authority {
        d[0] = 1;
        d[4..36].copy_from_slice(&a);
    }
    d[36..44].copy_from_slice(&supply.to_le_bytes());
    d[44] = decimals;
    d[45] = initialized as u8;
    d[46] = 1;
    d[50..82].copy_from_slice(&[3; 32]);
    d
}

#[test]
fn mint_fields() {
    let m = Mint::parse_unchecked(mint_data(Some([2; 32]), 0x0102030405060708, 9, true));
    assert_eq!(m.supply(), 0x0102030405060708);
    assert_eq!(m.decimals(), 9);
    assert!(m.is_initialized());
    assert_eq!(m.mint_authority(), Some([2; 32]));
    assert_eq!(m.freeze_authority(), Some([3; 32]));
    let m = Mint::parse_unchecked(mint_data(None, 0, 6, false));
    assert!(!m.is_initialized());
    assert_eq!(m.mint_authority(), None);
}

#[test]
fn mint_parse_checks() {
    let good = mint_data(None, 1, 6, true);
    assert!(Mint::parse(&TOKEN_PROGRAM_ID, good.clone()).is_ok());
    assert_eq!(Mint::parse(&[0; 32], good.clone()).err(), Some(BridgeError::InvalidTokenProgram));
    assert_eq!(Mint::parse(&TOKEN_PROGRAM_ID, good[..81].to_vec()).err(), Some(BridgeError::AccountDidNotDeserialize));
    assert_eq!(Mint::parse(&TOKEN_PROGRAM_ID, mint_data(None, 1, 6, false)).err(), Some(BridgeError::AccountNotInitialized));
}

#[test]
fn mint_authority_requirement() {
    let with = mint_data(Some([2; 32]), 1, 6, true);
    assert_eq!(Mint::require_mint_authority(&TOKEN_PROGRAM_ID, with.clone(), Some(&[2; 32])), Ok(()));
    assert_eq!(Mint::require_mint_authority(&TOKEN_PROGRAM_ID, with.clone(), Some(&[3; 32])), Err(BridgeError::ConstraintMintMintAuthority));
    assert_eq!(Mint::require_mint_authority(&TOKEN_PROGRAM_ID, with, None), Err(BridgeError::ConstraintMintMintAuthority));
    let without = mint_data(None, 1, 6, true);
    assert_eq!(Mint::require_mint_authority(&TOKEN_PROGRAM_ID, without.clone(), None), Ok(()));
    assert_eq!(Mint::require_mint_authority(&TOKEN_PROGRAM_ID, without, Some(&[2; 32])), Err(BridgeError::ConstraintMintMintAuthority));
}

fn bridge_mint_authority() -> [u8; 32] {
    let program = solana_program::pubkey::Pubkey::new_from_array(TOKEN_BRIDGE_PROGRAM_ID);
    solana_program::pubkey::Pubkey::find_program_address(&[&MINT_AUTHORITY_SEED_PREFIX], &program).0.to_bytes()
}

#[test]
fn native_mint_detection() {
    let bridge = bridge_mint_authority();
    assert!(is_native_mint(&Mint::parse_unchecked(mint_data(None, 1, 6, true))));
    assert!(is_native_mint(&Mint::parse_unchecked(mint_data(Some([2; 32]), 1, 6, true))));
    assert!(!is_native_mint(&Mint::parse_unchecked(mint_data(Some(bridge), 1, 6, true))));
    assert_eq!(require_native_mint(&TOKEN_PROGRAM_ID, mint_data(Some(bridge), 1, 6, true)), Err(BridgeError::WrappedAsset));
    assert_eq!(require_native_mint(&TOKEN_PROGRAM_ID, mint_data(Some([2; 32]), 1, 6, true)), Ok(()));
    assert_eq!(require_native_mint(&[1; 32], mint_data(None, 1, 6, true)), Err(BridgeError::InvalidTokenProgram));
}

#[test]
fn sender_address_of_program_or_signer() {
    let program_id = [42u8; 32];
    let program = solana_program::pubkey::Pubkey::new_from_array(program_id);
    let sender = solana_program::pubkey::Pubkey::find_program_address(&[&PROGRAM_SENDER_SEED_PREFIX], &program).0.to_bytes();
    assert_eq!(new_sender_address(&sender, Some(program_id)), Ok(program_id));
    assert_eq!(new_sender_address(&[1; 32], Some(program_id)), Err(BridgeError::InvalidSenderAuthority));
    assert_eq!(new_sender_address(&[1; 32], None), Ok([1; 32]));
}

#[test]
fn amount_scaling() {
    assert_eq!(cap_decimals(6), 6);
    assert_eq!(cap_decimals(8), 8);
    assert_eq!(cap_decimals(18), 8);
    assert_eq!(truncate_amount(123_456_789, 8), 123_456_789);
    assert_eq!(truncate_amount(123_456_789, 10), 123_456_700);
    assert_eq!(truncate_amount(u64::MAX, 27), 10_000_000_000_000_000_000);
    assert_eq!(normalize_amount(123_456_789, 6), 123_456_789);
    assert_eq!(normalize_amount(123_456_789, 10), 1_234_567);
    assert_eq!(normalize_amount(u64::MAX, 27), 1);
    assert_eq!(normalize_amount(u64::MAX, 28), 0);
    assert_eq!(normalize_amount(u64::MAX, 255), 0);
    let m = Mint::parse_unchecked(mint_data(None, 1, 9, true));
    assert_eq!(m.mint_decimals(), 9);
    assert_eq!(m.truncate_amount(1_999), 1_990);
}

#[test]
fn fixed32_strings() {
    let mut expected = [0u8; 32];
    expected[..3].copy_from_slice(b"SOL");
    assert_eq!(string_to_fixed32(&"SOL".to_string()), expected);
    let long = "abcdefghijklmnopqrstuvwxyz0123456789".to_string();
    let mut e2 = [0u8; 32];
    e2.copy_from_slice(&long.as_bytes()[..32]);
    assert_eq!(string_to_fixed32(&long), e2);
    assert_eq!(string_to_fixed32(&String::new()), [0u8; 32]);
}

fn st(v: &PostedVaaV1Bytes) -> PostedVaaStore {
    let mut s = PostedVaaStore::new();
    s.insert(v.clone()).unwrap();
    s
}

fn hs(v: &PostedVaaV1Bytes) -> [u8; 32] {
    v.try_message_hash()
}
