use wormhole_bridge::claim::ClaimLedger;
use wormhole_bridge::crypto::hash_bytes;
use wormhole_bridge::error::BridgeError;
use wormhole_bridge::guardian_set::{GuardianSet, GuardianSetRegistry, LEGACY_INITIAL_CREATION_TIME};
use wormhole_bridge::message::{
    process_message_v1, publish, post_message, DraftMessage, EmitterSequences, MessageStatus,
    ProcessMessageV1Directive,
};
use wormhole_bridge::posted_vaa::{
    ClosePostedVaaV1Directive, MessagePayload, PostedVaaStore, PostedVaaV1, PostedVaaV1Bytes,
    PostedVaaV1Metadata, VaaV1Account,
};
use wormhole_bridge::quorum::{quorum_of, verify_recovered, verify_signatures};
use wormhole_bridge::vaa::{parse_vaa, GuardianSignature, Vaa, VaaBody};

fn key(i: u8) -> [u8; 20] {
    [i.wrapping_add(1); 20]
}

fn guardian_set(index: u32, n: u8) -> GuardianSet {
    GuardianSet {
        index,
        keys: (0..n).map(key).collect(),
        creation_time: 100,
        expiration_time: 0,
    }
}

fn sig(index: u8) -> GuardianSignature {
    GuardianSignature { guardian_index: index, signature: [index; 64], recovery_id: 0 }
}

fn body(sequence: u64, payload: Vec<u8>) -> VaaBody {
    VaaBody {
        timestamp: 0x01020304,
        nonce: 0x0a0b0c0d,
        emitter_chain: 2,
        emitter_address: [7; 32],
        sequence,
        consistency_level: 15,
        payload,
    }
}

fn hex(s: &str) -> Vec<u8> {
    (0..s.len()).step_by(2).map(|i| u8::from_str_radix(&s[i..i + 2], 16).unwrap()).collect()
}

#[test]
fn unbounded_set_is_active_at_any_time() {
    let set = guardian_set(3, 4);
    for t in [0u32, 1, 1_000_000, u32::MAX] {
        assert!(set.is_active(&t));
    }
}

#[test]
fn legacy_initial_set_is_never_active() {
    let mut set = guardian_set(0, 4);
    set.creation_time = LEGACY_INITIAL_CREATION_TIME;
    for t in [0u32, LEGACY_INITIAL_CREATION_TIME, u32::MAX] {
        assert!(!set.is_active(&t));
    }
    set.creation_time = LEGACY_INITIAL_CREATION_TIME + 1;
    assert!(set.is_active(&5));
}

#[test]
fn expired_set_is_active_until_its_expiration() {
    let mut set = guardian_set(2, 4);
    set.expiration_time = 500;
    assert!(set.is_active(&499));
    assert!(set.is_active(&500));
    assert!(!set.is_active(&501));
}

#[test]
fn guardian_set_size() {
    assert_eq!(GuardianSet::compute_size(19), 4 + 4 + 19 * 20 + 4 + 4);
    assert_eq!(GuardianSet::compute_size(0), 16);
}

#[test]
fn registry_installs_sets_in_order() {
    assert_eq!(GuardianSetRegistry::new(vec![], 1).err(), Some(BridgeError::EmptyGuardianSet));
    let mut reg = GuardianSetRegistry::new(vec![key(0)], 10).ok().unwrap();
    assert_eq!(reg.current_index(), 0);
    assert_eq!(reg.install(2, vec![key(1)], 50, 100), Err(BridgeError::InvalidGuardianSetIndex));
    assert_eq!(reg.install(1, vec![], 50, 100), Err(BridgeError::EmptyGuardianSet));
    assert_eq!(reg.install(1, vec![key(1), key(2)], 50, 100), Ok(()));
    assert_eq!(reg.current_index(), 1);
    assert_eq!(reg.get(0).unwrap().expiration_time, 150);
    let current = reg.get(1).unwrap();
    assert_eq!(current.expiration_time, 0);
    assert_eq!(current.creation_time, 50);
    assert_eq!(current.keys.len(), 2);
    assert!(reg.get(2).is_none());
    assert_eq!(reg.is_active(0, 150), Ok(true));
    assert_eq!(reg.is_active(0, 151), Ok(false));
    assert_eq!(reg.is_active(1, u32::MAX), Ok(true));
    assert_eq!(reg.is_active(2, 0), Err(BridgeError::GuardianSetNotFound));
    assert_eq!(reg.install(2, vec![key(3)], u32::MAX - 1, 100), Ok(()));
    assert_eq!(reg.get(1).unwrap().expiration_time, u32::MAX);
}

#[test]
fn keccak_of_empty_input() {
    assert_eq!(
        hash_bytes(&[]).to_vec(),
        hex("c5d2460186f7233c927e7db2dcc703c0e500b653ca82273b7bfad8045d85a470")
    );
}

#[test]
fn message_preimage_is_big_endian() {
    let b = body(0x1122334455667788, vec![0xaa, 0xbb]);
    let pre = b.message_preimage();
    let mut expected = vec![1, 2, 3, 4, 0x0a, 0x0b, 0x0c, 0x0d, 0, 2];
    expected.extend_from_slice(&[7; 32]);
    expected.extend_from_slice(&[0x11, 0x22, 0x33, 0x44, 0x55, 0x66, 0x77, 0x88, 15, 0xaa, 0xbb]);
    assert_eq!(pre, expected);
    assert_eq!(b.message_hash(), hash_bytes(&expected));
}

#[test]
fn message_hash_is_deterministic_and_distinct() {
    let a = body(1, vec![1, 2, 3]);
    assert_eq!(a.message_hash(), a.message_hash());
    assert_eq!(a.message_hash(), body(1, vec![1, 2, 3]).message_hash());
    let corpus = [body(1, vec![1, 2, 3]), body(2, vec![1, 2, 3]), body(1, vec![1, 2]), body(1, vec![])];
    for i in 0..corpus.len() {
        for j in 0..corpus.len() {
            assert_eq!(i == j, corpus[i].message_hash() == corpus[j].message_hash());
        }
    }
}

fn encode_vaa(guardian_set_index: u32, sigs: &[(u8, [u8; 64], u8)], b: &VaaBody) -> Vec<u8> {
    let mut v = vec![1];
    v.extend_from_slice(&guardian_set_index.to_be_bytes());
    v.push(sigs.len() as u8);
    for (i, s, r) in sigs {
        v.push(*i);
        v.extend_from_slice(s);
        v.push(*r);
    }
    v.extend_from_slice(&b.message_preimage());
    v
}

#[test]
fn parse_vaa_reads_every_field() {
    let b = body(9, vec![5, 6, 7]);
    let bytes = encode_vaa(4, &[(0, [1; 64], 0), (2, [2; 64], 1)], &b);
    let v = parse_vaa(&bytes).ok().unwrap();
    assert_eq!(v.version, 1);
    assert_eq!(v.guardian_set_index, 4);
    assert_eq!(v.signatures.len(), 2);
    assert_eq!(v.signatures[1].guardian_index, 2);
    assert_eq!(v.signatures[1].signature, [2; 64]);
    assert_eq!(v.signatures[1].recovery_id, 1);
    assert_eq!(v.body.timestamp, b.timestamp);
    assert_eq!(v.body.nonce, b.nonce);
    assert_eq!(v.body.emitter_chain, 2);
    assert_eq!(v.body.emitter_address, [7; 32]);
    assert_eq!(v.body.sequence, 9);
    assert_eq!(v.body.consistency_level, 15);
    assert_eq!(v.body.payload, vec![5, 6, 7]);
}

#[test]
fn parse_vaa_rejects_malformed_bytes() {
    let b = body(9, vec![]);
    let good = encode_vaa(4, &[(0, [1; 64], 0)], &b);
    assert!(parse_vaa(&good).is_ok());
    let mut wrong_version = good.clone();
    wrong_version[0] = 2;
    assert_eq!(parse_vaa(&wrong_version).err(), Some(BridgeError::MalformedVaa));
    assert_eq!(parse_vaa(&good[..good.len() - 1]).err(), Some(BridgeError::MalformedVaa));
    assert_eq!(parse_vaa(&[1, 0, 0]).err(), Some(BridgeError::MalformedVaa));
    let mut too_many = good.clone();
    too_many[5] = 2;
    assert_eq!(parse_vaa(&too_many).err(), Some(BridgeError::MalformedVaa));
}

#[test]
fn quorum_sizes() {
    assert_eq!(quorum_of(19), 13);
    assert_eq!(quorum_of(1), 1);
    assert_eq!(quorum_of(3), 3);
    assert_eq!(quorum_of(4), 3);
    assert_eq!(quorum_of(0), 1);
}

fn signed_by(set: &GuardianSet, indices: &[u8]) -> (Vec<GuardianSignature>, Vec<Option<[u8; 20]>>) {
    let sigs = indices.iter().map(|i| sig(*i)).collect();
    let rec = indices.iter().map(|i| Some(set.keys[*i as usize])).collect();
    (sigs, rec)
}

#[test]
fn nineteen_guardians_need_thirteen_signatures() {
    let set = guardian_set(5, 19);
    let indices = [0u8, 1, 3, 4, 6, 8, 9, 11, 12, 13, 15, 17, 18];
    let (sigs, rec) = signed_by(&set, &indices);
    assert_eq!(verify_recovered(&set, 1000, &sigs, &rec), Ok(()));
    let (sigs, rec) = signed_by(&set, &indices[1..]);
    assert_eq!(verify_recovered(&set, 1000, &sigs, &rec), Err(BridgeError::QuorumNotMet));
}

#[test]
fn verification_rejects_bad_signatures_and_order() {
    let set = guardian_set(5, 4);
    let (sigs, mut rec) = signed_by(&set, &[0, 1, 2]);
    assert_eq!(verify_recovered(&set, 1, &sigs, &rec), Ok(()));
    rec[1] = Some(key(9));
    assert_eq!(verify_recovered(&set, 1, &sigs, &rec), Err(BridgeError::InvalidSignature));
    rec[1] = None;
    assert_eq!(verify_recovered(&set, 1, &sigs, &rec), Err(BridgeError::InvalidSignature));
    let (sigs, rec) = signed_by(&set, &[0, 2, 2]);
    assert_eq!(verify_recovered(&set, 1, &sigs, &rec), Err(BridgeError::InvalidGuardianIndex));
    let (sigs, rec) = signed_by(&set, &[2, 1, 3]);
    assert_eq!(verify_recovered(&set, 1, &sigs, &rec), Err(BridgeError::InvalidGuardianIndex));
    let sigs = vec![sig(0), sig(1), sig(4)];
    let rec = vec![Some(key(0)), Some(key(1)), Some(key(4))];
    assert_eq!(verify_recovered(&set, 1, &sigs, &rec), Err(BridgeError::InvalidGuardianIndex));
    let mut expired = guardian_set(5, 4);
    expired.expiration_time = 10;
    let (sigs, rec) = signed_by(&expired, &[0, 1, 2]);
    assert_eq!(verify_recovered(&expired, 11, &sigs, &rec), Err(BridgeError::GuardianSetExpired));
    assert_eq!(verify_recovered(&expired, 10, &sigs, &rec), Ok(()));
}

fn secret(i: u8) -> libsecp256k1::SecretKey {
    let mut b = [0u8; 32];
    b[31] = i + 1;
    b[0] = 0x11;
    libsecp256k1::SecretKey::parse(&b).unwrap()
}

fn eth_address(sk: &libsecp256k1::SecretKey) -> [u8; 20] {
    let pk = libsecp256k1::PublicKey::from_secret_key(sk).serialize();
    let h = hash_bytes(&pk[1..65]);
    let mut a = [0u8; 20];
    a.copy_from_slice(&h[12..32]);
    a
}

fn real_signatures(hash: &[u8; 32], indices: &[u8]) -> Vec<(u8, [u8; 64], u8)> {
    indices
        .iter()
        .map(|i| {
            let (s, r) = libsecp256k1::sign(&libsecp256k1::Message::parse(hash), &secret(*i));
            (*i, s.serialize(), r.serialize())
        })
        .collect()
}

fn real_registry(n: u8, index: u32) -> GuardianSetRegistry {
    let mut reg = GuardianSetRegistry::new(vec![[0xee; 20]], 1).ok().unwrap();
    for i in 1..=index {
        let keys = if i == index { (0..n).map(|k| eth_address(&secret(k))).collect() } else { vec![[i as u8; 20]] };
        reg.install(i, keys, 1, 10).unwrap();
    }
    reg
}

#[test]
fn end_to_end_signed_message_is_posted() {
    let reg = real_registry(19, 5);
    let b = body(42, b"hello".to_vec());
    let hash = b.message_hash();
    let indices = [1u8, 3, 4, 6, 9, 10, 11, 12, 13, 15, 16, 17, 18];
    let mut store = PostedVaaStore::new();
    let bytes = encode_vaa(5, &real_signatures(&hash, &indices), &b);
    assert_eq!(store.verify_and_post(&reg, &bytes, 5, [9; 32]), Ok(hash));
    let rec = store.get(&hash).unwrap();
    assert_eq!(rec.meta.guardian_set_index, 5);
    assert_eq!(rec.meta.sequence, 42);
    assert_eq!(rec.meta.signature_set, [9; 32]);
    assert_eq!(rec.payload, b"hello".to_vec());
    assert_eq!(rec.try_message_hash(), hash);
    assert_eq!(store.verify_and_post(&reg, &bytes, 5, [9; 32]), Err(BridgeError::AlreadyPosted));

    let fewer = encode_vaa(5, &real_signatures(&hash, &indices[..12]), &b);
    let mut other = PostedVaaStore::new();
    assert_eq!(other.verify_and_post(&reg, &fewer, 5, [9; 32]), Err(BridgeError::QuorumNotMet));
    assert!(other.get(&hash).is_none());
}

#[test]
fn signature_over_another_body_is_rejected() {
    let reg = real_registry(4, 1);
    let b = body(1, vec![1]);
    let other = body(2, vec![1]);
    let sigs = real_signatures(&other.message_hash(), &[0, 1, 2]);
    let mut store = PostedVaaStore::new();
    let bytes = encode_vaa(1, &sigs, &b);
    assert_eq!(store.verify_and_post(&reg, &bytes, 5, [0; 32]), Err(BridgeError::InvalidSignature));
    let bytes = encode_vaa(7, &sigs, &b);
    assert_eq!(store.verify_and_post(&reg, &bytes, 5, [0; 32]), Err(BridgeError::GuardianSetNotFound));
}

#[test]
fn verify_signatures_recovers_real_signers() {
    let reg = real_registry(4, 1);
    let set = reg.get(1).unwrap();
    let hash = body(3, vec![]).message_hash();
    let sigs: Vec<GuardianSignature> = real_signatures(&hash, &[0, 2, 3])
        .into_iter()
        .map(|(i, s, r)| GuardianSignature { guardian_index: i, signature: s, recovery_id: r })
        .collect();
    let ss = verify_signatures(set, 0, &hash, &sigs).ok().unwrap();
    assert_eq!(ss.guardian_set_index, 1);
    assert_eq!(ss.message_hash, hash);
    assert_eq!(ss.guardian_indices, vec![0, 2, 3]);
    let mut wrong = sigs;
    wrong[0].guardian_index = 1;
    assert_eq!(verify_signatures(set, 0, &hash, &wrong).err(), Some(BridgeError::InvalidSignature));
}

#[test]
fn claim_succeeds_once() {
    let mut claims = ClaimLedger::new();
    assert_eq!(claims.claim(2, [1; 32], 7), Ok(0));
    assert_eq!(claims.claim(2, [1; 32], 8), Ok(1));
    assert_eq!(claims.claim(3, [1; 32], 7), Ok(2));
    assert_eq!(claims.claim(2, [1; 32], 7), Err(BridgeError::AlreadyClaimed));
    assert!(claims.is_claimed(2, &[1; 32], 7));
    assert!(!claims.is_claimed(2, &[2; 32], 7));
    claims.complete(0);
    claims.complete(0);
    assert!(claims.get(0).is_complete);
    assert!(!claims.get(1).is_complete);
    assert_eq!(claims.claim(2, [1; 32], 7), Err(BridgeError::AlreadyClaimed));
    assert_eq!(claims.len(), 3);
}

#[test]
fn draft_write_past_end_overflows() {
    let auth = [5; 32];
    let mut d = DraftMessage::init(auth, 8);
    assert_eq!(d.encoded_payload_length(), 8);
    assert_eq!(d.write(&auth, 6, &[1, 2, 3]), Err(BridgeError::DataOverflow));
    assert_eq!(d.write(&auth, u32::MAX, &[1]), Err(BridgeError::DataOverflow));
    assert_eq!(d.write(&auth, 5, &[1, 2, 3]), Ok(()));
    assert_eq!(d.write(&auth, 0, &[9, 9]), Ok(()));
    assert_eq!(d.write(&auth, 1, &[4]), Ok(()));
    assert_eq!(d.payload, vec![9, 4, 0, 0, 0, 1, 2, 3]);
    assert_eq!(d.write(&auth, 0, &[]), Err(BridgeError::InvalidInstructionArgument));
    assert_eq!(d.write(&[6; 32], 0, &[1]), Err(BridgeError::AuthorityMismatch));
}

#[test]
fn draft_write_after_finalize_fails() {
    let auth = [5; 32];
    let mut d = DraftMessage::init(auth, 4);
    assert_eq!(d.finalize(&[6; 32]), Err(BridgeError::AuthorityMismatch));
    assert_eq!(d.finalize(&auth), Ok(()));
    assert_eq!(d.status, MessageStatus::Finalized);
    assert_eq!(d.write(&auth, 0, &[1]), Err(BridgeError::MessageAlreadyPublished));
    assert_eq!(d.finalize(&auth), Err(BridgeError::MessageAlreadyPublished));
    assert_eq!(d.close(&auth), Err(BridgeError::MessageAlreadyPublished));
    assert_eq!(d.payload, vec![0; 4]);
}

#[test]
fn process_message_directives() {
    let auth = [5; 32];
    let mut d = DraftMessage::init(auth, 4);
    let w = ProcessMessageV1Directive::Write { index: 2, data: vec![7, 8] };
    assert_eq!(process_message_v1(&mut d, &auth, None, w), Ok(false));
    assert_eq!(d.payload, vec![0, 0, 7, 8]);
    let w = ProcessMessageV1Directive::Write { index: 3, data: vec![7, 8] };
    assert_eq!(process_message_v1(&mut d, &auth, None, w), Err(BridgeError::DataOverflow));
    let c = ProcessMessageV1Directive::CloseMessageAccount;
    assert_eq!(process_message_v1(&mut d, &auth, None, c), Err(BridgeError::AccountNotEnoughKeys));
    let c = ProcessMessageV1Directive::CloseMessageAccount;
    assert_eq!(process_message_v1(&mut d, &[1; 32], Some([2; 32]), c), Err(BridgeError::AuthorityMismatch));
    let c = ProcessMessageV1Directive::CloseMessageAccount;
    assert_eq!(process_message_v1(&mut d, &auth, Some([2; 32]), c), Ok(true));
    d.finalize(&auth).unwrap();
    let w = ProcessMessageV1Directive::Write { index: 0, data: vec![1] };
    assert_eq!(process_message_v1(&mut d, &auth, None, w), Err(BridgeError::MessageAlreadyPublished));
}

#[test]
fn posting_assigns_consecutive_sequences_per_emitter() {
    let a = [1; 32];
    let b = [2; 32];
    let mut seqs = EmitterSequences::new();
    let mut got_a = vec![];
    for _ in 0..3 {
        let mut d = DraftMessage::init(a, 2);
        d.write(&a, 0, &[1, 2]).unwrap();
        d.finalize(&a).unwrap();
        let (s, h) = post_message(&mut d, &mut seqs, &a, 0, 1, 10, 1).unwrap();
        assert_eq!(d.status, MessageStatus::Published);
        let expected = VaaBody {
            timestamp: 10,
            nonce: 0,
            emitter_chain: 1,
            emitter_address: a,
            sequence: s,
            consistency_level: 1,
            payload: vec![1, 2],
        };
        assert_eq!(h, expected.message_hash());
        assert!(d.close(&a).is_ok());
        got_a.push(s);
    }
    assert_eq!(got_a, vec![0, 1, 2]);
    assert_eq!(seqs.next(&b), 0);
    let (s, _) = publish(&mut seqs, b, vec![3], 0, 1, 10, 1).unwrap();
    assert_eq!(s, 0);
    assert_eq!(seqs.next(&a), 3);
    assert_eq!(seqs.next(&b), 1);
}

#[test]
fn posting_needs_a_finalized_draft() {
    let a = [1; 32];
    let mut seqs = EmitterSequences::new();
    let mut d = DraftMessage::init(a, 1);
    assert_eq!(post_message(&mut d, &mut seqs, &a, 0, 1, 10, 1).err(), Some(BridgeError::MessageAlreadyPublished));
    d.finalize(&a).unwrap();
    assert_eq!(post_message(&mut d, &mut seqs, &[3; 32], 0, 1, 10, 1).err(), Some(BridgeError::AuthorityMismatch));
    assert!(post_message(&mut d, &mut seqs, &a, 0, 1, 10, 1).is_ok());
    assert_eq!(post_message(&mut d, &mut seqs, &a, 0, 1, 10, 1).err(), Some(BridgeError::MessageAlreadyPublished));
    assert_eq!(seqs.next(&a), 1);
}

#[test]
fn message_payload_deserialize_checks_size() {
    let p = MessagePayload::deserialize(&[3, 0, 0, 0, 7, 8, 9]).ok().unwrap();
    assert_eq!(p.size, 3);
    assert_eq!(p.data, vec![7, 8, 9]);
    assert_eq!(MessagePayload::deserialize(&[4, 0, 0, 0, 7, 8, 9]).err(), Some(BridgeError::MalformedVaa));
    assert_eq!(MessagePayload::deserialize(&[0, 0]).err(), Some(BridgeError::MalformedVaa));
    assert!(MessagePayload::deserialize(&[0, 0, 0, 0]).is_ok());
}

fn meta(signature_set: [u8; 32], sequence: u64) -> PostedVaaV1Metadata {
    PostedVaaV1Metadata {
        consistency_level: 15,
        timestamp: 0x01020304,
        signature_set,
        guardian_set_index: 0,
        nonce: 0x0a0b0c0d,
        sequence,
        emitter_chain: 2,
        emitter_address: [7; 32],
    }
}

#[test]
fn posted_record_hash_matches_body_hash() {
    let b = body(11, vec![4, 5]);
    let rec = PostedVaaV1Bytes { meta: meta([0; 32], 11), payload: vec![4, 5] };
    assert_eq!(rec.try_message_hash(), b.message_hash());
    let framed = PostedVaaV1 { meta: meta([0; 32], 11), payload: MessagePayload { size: 2, data: vec![4, 5] } };
    assert_eq!(framed.try_message_hash(), b.message_hash());
    assert_eq!(PostedVaaV1Bytes::compute_size(10), 4 + 87 + 4 + 10);
}

#[test]
fn close_posted_vaa_checks_signature_set() {
    let mut store = PostedVaaStore::new();
    let with_set = PostedVaaV1Bytes { meta: meta([3; 32], 1), payload: vec![] };
    let without = PostedVaaV1Bytes { meta: meta([0; 32], 2), payload: vec![] };
    let h1 = store.insert(with_set).unwrap();
    let h2 = store.insert(without).unwrap();
    assert_eq!(store.insert(PostedVaaV1Bytes { meta: meta([3; 32], 1), payload: vec![] }).err(), Some(BridgeError::AlreadyPosted));
    assert_eq!(store.close_posted_vaa_v1(&h1, Some([4; 32]), ClosePostedVaaV1Directive::TryOnce).err(), Some(BridgeError::InvalidSignatureSet));
    assert_eq!(store.close_posted_vaa_v1(&h1, None, ClosePostedVaaV1Directive::TryOnce).err(), Some(BridgeError::AccountNotEnoughKeys));
    assert!(store.close_posted_vaa_v1(&h1, Some([3; 32]), ClosePostedVaaV1Directive::TryOnce).is_ok());
    assert!(store.get(&h1).is_none());
    assert_eq!(store.close_posted_vaa_v1(&h1, Some([3; 32]), ClosePostedVaaV1Directive::TryOnce).err(), Some(BridgeError::PostedVaaNotFound));
    assert!(store.close_posted_vaa_v1(&h2, None, ClosePostedVaaV1Directive::TryOnce).is_ok());
}

#[test]
fn post_verified_checks_the_signature_set() {
    let reg = real_registry(4, 1);
    let set = reg.get(1).unwrap();
    let b = body(3, vec![1, 2]);
    let hash = b.message_hash();
    let sigs: Vec<GuardianSignature> = real_signatures(&hash, &[0, 1, 3])
        .into_iter()
        .map(|(i, s, r)| GuardianSignature { guardian_index: i, signature: s, recovery_id: r })
        .collect();
    let ss = verify_signatures(set, 0, &hash, &sigs).ok().unwrap();
    let mut store = PostedVaaStore::new();
    assert_eq!(store.post_verified(&reg, body(4, vec![1, 2]), &ss, [5; 32], 0), Err(BridgeError::InvalidSignatureSet));
    assert_eq!(store.post_verified(&reg, body(3, vec![1, 2]), &ss, [5; 32], 0), Ok(hash));
    assert_eq!(store.post_verified(&reg, body(3, vec![1, 2]), &ss, [5; 32], 0), Err(BridgeError::AlreadyPosted));
    assert_eq!(store.get(&hash).unwrap().meta.signature_set, [5; 32]);
    let old = reg.get(0).unwrap();
    assert_eq!(old.expiration_time, 11);
    let stale = verify_signatures(set, 0, &hash, &sigs).ok().unwrap();
    let stale = wormhole_bridge::quorum::SignatureSet { guardian_set_index: 0, ..stale };
    let mut other = PostedVaaStore::new();
    assert_eq!(other.post_verified(&reg, body(3, vec![1, 2]), &stale, [5; 32], 12), Err(BridgeError::GuardianSetExpired));
}

#[test]
fn encode_matches_wire_format_and_parses_back() {
    let v = Vaa {
        version: 1,
        guardian_set_index: 0x01020304,
        signatures: vec![sig(0), sig(3)],
        body: body(5, vec![9, 8]),
    };
    let bytes = v.encode();
    assert_eq!(bytes, encode_vaa(0x01020304, &[(0, [0; 64], 0), (3, [3; 64], 0)], &body(5, vec![9, 8])));
    assert_eq!(bytes.len(), 6 + 2 * 66 + 51 + 2);
    let back = parse_vaa(&bytes).ok().unwrap();
    assert_eq!(back.guardian_set_index, 0x01020304);
    assert_eq!(back.signatures.len(), 2);
    assert_eq!(back.signatures[1].guardian_index, 3);
    assert_eq!(back.body.message_hash(), v.body.message_hash());
}
