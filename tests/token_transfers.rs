use wormhole_bridge::claim::ClaimLedger;
use wormhole_bridge::error::BridgeError;
use wormhole_bridge::governance::{governance_emitter, token_bridge_module, BridgeConfig};
use wormhole_bridge::message::EmitterSequences;
use wormhole_bridge::posted_vaa::{PostedVaaStore, PostedVaaV1Bytes, PostedVaaV1Metadata, VaaV1Account};
use wormhole_bridge::token::{TOKEN_BRIDGE_PROGRAM_ID, TOKEN_PROGRAM_ID};
use wormhole_bridge::token_bridge::{register_chain, RegisteredEmitters};
use wormhole_bridge::token_transfer::{
    attest_token, complete_transfer_with_payload_wrapped, create_or_update_wrapped,
    token_bridge_emitter, transfer_tokens_native, transfer_tokens_with_payload_wrapped,
    try_attestation_decimals, try_attestation_token_address, try_attestation_token_chain,
    WrappedAsset, WrappedMetadataAction,
};
use wormhole_bridge::vaa::VaaBody;

fn emitter() -> [u8; 32] {
    let program = solana_program::pubkey::Pubkey::new_from_array(TOKEN_BRIDGE_PROGRAM_ID);
    solana_program::pubkey::Pubkey::find_program_address(&[b"emitter"], &program).0.to_bytes()
}

fn mint_data(authority: Option<[u8; 32]>, decimals: u8) -> Vec<u8> {
    let mut d = vec![0u8; 82];
    if let Some(a) = authority {
        d[0] = 1;
        d[4..36].copy_from_slice(&a);
    }
    d[44] = decimals;
    d[45] = 1;
    d
}

fn bridge_message_hash(sequence: u64, nonce: u32, timestamp: u32, payload: Vec<u8>) -> [u8; 32] {
    VaaBody {
        timestamp,
        nonce,
        emitter_chain: 1,
        emitter_address: emitter(),
        sequence,
        consistency_level: 32,
        payload,
    }
    .message_hash()
}

fn u256(x: u64) -> Vec<u8> {
    let mut v = vec![0u8; 24];
    v.extend_from_slice(&x.to_be_bytes());
    v
}

#[test]
fn bridge_emitter_is_derived() {
    assert_eq!(token_bridge_emitter(), Some(emitter()));
}

#[test]
fn attest_native_token() {
    let mut seqs = EmitterSequences::new();
    let key = [4u8; 32];
    let (seq, hash) = attest_token(&mut seqs, &TOKEN_PROGRAM_ID, &key, mint_data(Some([2; 32]), 9), &"SOL".to_string(), &"Solana".to_string(), 7, 100).unwrap();
    assert_eq!(seq, 0);
    let mut payload = vec![2u8];
    payload.extend_from_slice(&key);
    payload.extend_from_slice(&[0, 1, 9]);
    let mut sym = [0u8; 32];
    sym[..3].copy_from_slice(b"SOL");
    let mut name = [0u8; 32];
    name[..6].copy_from_slice(b"Solana");
    payload.extend_from_slice(&sym);
    payload.extend_from_slice(&name);
    assert_eq!(hash, bridge_message_hash(0, 7, 100, payload));
    assert_eq!(seqs.next(&emitter()), 1);
}

#[test]
fn attest_rejects_wrapped_and_foreign_mints() {
    let mut seqs = EmitterSequences::new();
    let program = solana_program::pubkey::Pubkey::new_from_array(TOKEN_BRIDGE_PROGRAM_ID);
    let bridge_authority = solana_program::pubkey::Pubkey::find_program_address(&[b"mint_signer"], &program).0.to_bytes();
    let r = attest_token(&mut seqs, &TOKEN_PROGRAM_ID, &[4; 32], mint_data(Some(bridge_authority), 9), &"A".to_string(), &"B".to_string(), 0, 0);
    assert_eq!(r.err(), Some(BridgeError::WrappedAsset));
    let r = attest_token(&mut seqs, &[0; 32], &[4; 32], mint_data(None, 9), &"A".to_string(), &"B".to_string(), 0, 0);
    assert_eq!(r.err(), Some(BridgeError::InvalidTokenProgram));
    assert_eq!(seqs.next(&emitter()), 0);
}

#[test]
fn native_transfer_normalizes_amounts() {
    let mut seqs = EmitterSequences::new();
    let key = [4u8; 32];
    let (deposited, seq, hash) = transfer_tokens_native(&mut seqs, &TOKEN_PROGRAM_ID, &key, mint_data(None, 9), 1_234_567_891, 25, [6; 32], 2, 3, 50).unwrap();
    assert_eq!(deposited, 1_234_567_890);
    assert_eq!(seq, 0);
    let mut payload = vec![1u8];
    payload.extend_from_slice(&u256(123_456_789));
    payload.extend_from_slice(&key);
    payload.extend_from_slice(&[0, 1]);
    payload.extend_from_slice(&[6; 32]);
    payload.extend_from_slice(&[0, 2]);
    payload.extend_from_slice(&u256(2));
    assert_eq!(hash, bridge_message_hash(0, 3, 50, payload));
    let r = transfer_tokens_native(&mut seqs, &TOKEN_PROGRAM_ID, &key, mint_data(None, 9), 10, 11, [6; 32], 2, 3, 50);
    assert_eq!(r.err(), Some(BridgeError::InvalidRelayerFee));
    let (deposited, seq, _) = transfer_tokens_native(&mut seqs, &TOKEN_PROGRAM_ID, &key, mint_data(None, 6), 77, 0, [6; 32], 2, 3, 50).unwrap();
    assert_eq!((deposited, seq), (77, 1));
}

#[test]
fn wrapped_transfer_with_payload_names_the_sender() {
    let mut seqs = EmitterSequences::new();
    let asset = WrappedAsset { token_chain: 2, token_address: [5; 32], native_decimals: 18 };
    let (seq, hash) = transfer_tokens_with_payload_wrapped(&mut seqs, &asset, &[9; 32], None, 500, [6; 32], 2, &[1, 2, 3], 0, 10).unwrap();
    assert_eq!(seq, 0);
    let mut payload = vec![3u8];
    payload.extend_from_slice(&u256(500));
    payload.extend_from_slice(&[5; 32]);
    payload.extend_from_slice(&[0, 2]);
    payload.extend_from_slice(&[6; 32]);
    payload.extend_from_slice(&[0, 2]);
    payload.extend_from_slice(&[9; 32]);
    payload.extend_from_slice(&[1, 2, 3]);
    assert_eq!(hash, bridge_message_hash(0, 0, 10, payload));
    let r = transfer_tokens_with_payload_wrapped(&mut seqs, &asset, &[9; 32], Some([1; 32]), 500, [6; 32], 2, &[], 0, 10);
    assert_eq!(r.err(), Some(BridgeError::InvalidSenderAuthority));
    assert_eq!(seqs.next(&emitter()), 1);
}

fn vaa_from(chain: u16, address: [u8; 32], sequence: u64, payload: Vec<u8>) -> PostedVaaV1Bytes {
    PostedVaaV1Bytes {
        meta: PostedVaaV1Metadata {
            consistency_level: 32,
            timestamp: 0,
            signature_set: [1; 32],
            guardian_set_index: 0,
            nonce: 0,
            sequence,
            emitter_chain: chain,
            emitter_address: address,
        },
        payload,
    }
}

fn registered() -> (ClaimLedger, RegisteredEmitters) {
    let cfg = BridgeConfig { guardian_set_index: 0, fee_lamports: 0, guardian_set_ttl: 0 };
    let mut claims = ClaimLedger::new();
    let mut emitters = RegisteredEmitters::new();
    let mut p = token_bridge_module().to_vec();
    p.extend_from_slice(&[1, 0, 0, 0, 2]);
    p.extend_from_slice(&[8; 32]);
    let decree = vaa_from(1, governance_emitter(), 1, p);
    register_chain(&cfg, &mut claims, &mut emitters, &st(&decree), &hs(&decree)).unwrap();
    (claims, emitters)
}

fn transfer_with_payload(amount: Vec<u8>, token_chain: u16, redeemer: [u8; 32]) -> Vec<u8> {
    let mut p = vec![3u8];
    p.extend_from_slice(&amount);
    p.extend_from_slice(&[5; 32]);
    p.extend_from_slice(&token_chain.to_be_bytes());
    p.extend_from_slice(&redeemer);
    p.extend_from_slice(&[0, 1]);
    p.extend_from_slice(&[7; 32]);
    p.extend_from_slice(&[1, 2]);
    p
}

#[test]
fn complete_wrapped_transfer_once() {
    let (mut claims, emitters) = registered();
    let asset = WrappedAsset { token_chain: 2, token_address: [5; 32], native_decimals: 18 };
    let vaa = vaa_from(2, [8; 32], 1, transfer_with_payload(u256(500), 2, [6; 32]));
    assert_eq!(complete_transfer_with_payload_wrapped(&mut claims, &emitters, &st(&vaa), &hs(&vaa), &asset, &[6; 32]), Ok(500));
    assert_eq!(claims.len(), 2);
    assert_eq!(complete_transfer_with_payload_wrapped(&mut claims, &emitters, &st(&vaa), &hs(&vaa), &asset, &[6; 32]), Err(BridgeError::AlreadyClaimed));
}

#[test]
fn complete_wrapped_transfer_errors() {
    let (mut claims, emitters) = registered();
    let asset = WrappedAsset { token_chain: 2, token_address: [5; 32], native_decimals: 18 };
    let good = transfer_with_payload(u256(500), 2, [6; 32]);
    let cases = vec![
        (vaa_from(2, [9; 32], 1, good.clone()), BridgeError::InvalidTokenBridgeEmitter),
        (vaa_from(3, [8; 32], 1, good.clone()), BridgeError::InvalidTokenBridgeEmitter),
        (vaa_from(2, [8; 32], 1, good[..132].to_vec()), BridgeError::InvalidTokenBridgePayload),
        (vaa_from(2, [8; 32], 1, vec![9]), BridgeError::InvalidTokenBridgePayload),
        (vaa_from(2, [8; 32], 1, vec![1; 133]), BridgeError::InvalidTokenBridgeVaa),
        (vaa_from(2, [8; 32], 1, transfer_with_payload(u256(500), 2, [4; 32])), BridgeError::InvalidProgramRedeemer),
        (vaa_from(2, [8; 32], 1, transfer_with_payload(u256(500), 1, [6; 32])), BridgeError::NativeAsset),
        (vaa_from(2, [8; 32], 1, transfer_with_payload(u256(500), 3, [6; 32])), BridgeError::InvalidMint),
    ];
    for (vaa, e) in cases {
        assert_eq!(complete_transfer_with_payload_wrapped(&mut claims, &emitters, &st(&vaa), &hs(&vaa), &asset, &[6; 32]), Err(e));
    }
    let mut big = u256(500);
    big[0] = 1;
    let vaa = vaa_from(2, [8; 32], 1, transfer_with_payload(big, 2, [6; 32]));
    assert_eq!(complete_transfer_with_payload_wrapped(&mut claims, &emitters, &st(&vaa), &hs(&vaa), &asset, &[6; 32]), Err(BridgeError::NumericOverflow));
    let mut other_chain = transfer_with_payload(u256(500), 2, [6; 32]);
    other_chain[100] = 2;
    let vaa = vaa_from(2, [8; 32], 1, other_chain);
    assert_eq!(complete_transfer_with_payload_wrapped(&mut claims, &emitters, &st(&vaa), &hs(&vaa), &asset, &[6; 32]), Err(BridgeError::RedeemerChainNotSolana));
    assert_eq!(claims.len(), 1);
}

fn attestation(chain: u16, decimals: u8, symbol: &[u8], name: &[u8]) -> Vec<u8> {
    let mut p = vec![2u8];
    p.extend_from_slice(&[5; 32]);
    p.extend_from_slice(&chain.to_be_bytes());
    p.push(decimals);
    let mut s = [0u8; 32];
    s[..symbol.len()].copy_from_slice(symbol);
    let mut n = [0u8; 32];
    n[..name.len()].copy_from_slice(name);
    p.extend_from_slice(&s);
    p.extend_from_slice(&n);
    p
}

#[test]
fn attestation_fields() {
    let p = attestation(2, 18, b"WETH", b"Wrapped Ether");
    assert_eq!(try_attestation_decimals(&p), Ok(8));
    assert_eq!(try_attestation_decimals(&attestation(2, 6, b"", b"")), Ok(6));
    assert_eq!(try_attestation_token_chain(&p), Ok(2));
    assert_eq!(try_attestation_token_chain(&attestation(1, 6, b"", b"")), Err(BridgeError::NativeAsset));
    assert_eq!(try_attestation_token_address(&p), Ok([5; 32]));
    assert_eq!(try_attestation_token_address(&p[..99]), Err(BridgeError::InvalidTokenBridgePayload));
}

#[test]
fn create_then_update_wrapped_metadata() {
    let (mut claims, emitters) = registered();
    let vaa = vaa_from(2, [8; 32], 1, attestation(2, 18, b"WETHWETHWETH", b"Wrapped Ether"));
    match create_or_update_wrapped(&mut claims, &emitters, &st(&vaa), &hs(&vaa), None) {
        Ok(WrappedMetadataAction::Create { asset, mint_decimals, symbol, name }) => {
            assert_eq!(asset.token_chain, 2);
            assert_eq!(asset.token_address, [5; 32]);
            assert_eq!(asset.native_decimals, 18);
            assert_eq!(mint_decimals, 8);
            assert_eq!(symbol, b"WETHWETHWE".to_vec());
            assert_eq!(name, b"Wrapped Ether".to_vec());
        }
        _ => panic!("expected a new wrapped asset"),
    }
    assert_eq!(create_or_update_wrapped(&mut claims, &emitters, &st(&vaa), &hs(&vaa), None).err(), Some(BridgeError::AlreadyClaimed));
    let same = vaa_from(2, [8; 32], 2, attestation(2, 18, b"WETHWETHWETH", b"Wrapped Ether"));
    assert!(matches!(create_or_update_wrapped(&mut claims, &emitters, &st(&same), &hs(&same), Some((b"WETHWETHWE", b"Wrapped Ether"))), Ok(WrappedMetadataAction::Unchanged)));
    let renamed = vaa_from(2, [8; 32], 3, attestation(2, 18, b"WETH", b"Ether"));
    match create_or_update_wrapped(&mut claims, &emitters, &st(&renamed), &hs(&renamed), Some((b"WETHWETHWE", b"Wrapped Ether"))) {
        Ok(WrappedMetadataAction::Update { symbol, name }) => {
            assert_eq!(symbol, b"WETH".to_vec());
            assert_eq!(name, b"Ether".to_vec());
        }
        _ => panic!("expected a metadata update"),
    }
    let native = vaa_from(2, [8; 32], 4, attestation(1, 9, b"SOL", b"Solana"));
    assert_eq!(create_or_update_wrapped(&mut claims, &emitters, &st(&native), &hs(&native), None).err(), Some(BridgeError::NativeAsset));
    assert_eq!(claims.len(), 4);
}

fn st(v: &PostedVaaV1Bytes) -> PostedVaaStore {
    let mut s = PostedVaaStore::new();
    s.insert(v.clone()).unwrap();
    s
}

fn hs(v: &PostedVaaV1Bytes) -> [u8; 32] {
    v.try_message_hash()
}
