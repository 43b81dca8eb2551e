//! Records of verified messages, addressed by their message hash.
use vstd::prelude::*;

use crate::bytes::{bytes_eq, copy_range, read_le_u32, read_u32_le};
use crate::crypto::{keccak256, keccak256_of};
use crate::error::BridgeError;
use crate::guardian_set::GuardianSetRegistry;
use crate::quorum::{recovered_signers, verification_outcome, verify_signatures, SignatureSet};
use crate::vaa::{
    body_offset, encode_message_preimage, lemma_decoded_body_preimage, message_preimage, parse_vaa,
    vaa_decodes, wire_ok, Vaa, VaaBody,
};

verus! {

/// Fixed-size fields of a posted message.
#[derive(Clone, Debug)]
pub struct PostedVaaV1Metadata {
    /// Level of consistency requested by the emitter.
    pub consistency_level: u8,
    /// Time the message was submitted.
    pub timestamp: u32,
    /// Address of the signature set that verified this message.
    pub signature_set: [u8; 32],
    /// Index of the guardian set that verified the signatures.
    pub guardian_set_index: u32,
    /// Unique id for this message.
    pub nonce: u32,
    /// Sequence number of this message.
    pub sequence: u64,
    /// Chain of the emitter.
    pub emitter_chain: u16,
    /// Address of the emitter.
    pub emitter_address: [u8; 32],
}

impl PostedVaaV1Metadata {
    /// Serialized size of the metadata.
    pub const INIT_SPACE: usize = 87;

    pub open spec fn preimage_with(&self, payload: Seq<u8>) -> Seq<u8> {
        message_preimage(
            self.timestamp,
            self.nonce,
            self.emitter_chain,
            self.emitter_address@,
            self.sequence,
            self.consistency_level,
            payload,
        )
    }
}

/// Anything that can recompute the hash under which its message is stored.
pub trait VaaV1Account {
    spec fn hashed_bytes(&self) -> Seq<u8>;

    /// Recomputes the message hash.
    fn try_message_hash(&self) -> (r: [u8; 32])
        ensures
            r@ == keccak256_of(self.hashed_bytes()),
    ;
}

/// A payload prefixed with its length (little-endian `u32`).
pub struct MessagePayload {
    pub size: u32,
    pub data: Vec<u8>,
}

impl MessagePayload {
    /// Reads a length-prefixed payload that fills the whole buffer.
    pub fn deserialize(buf: &[u8]) -> (r: Result<MessagePayload, BridgeError>)
        ensures
            r is Ok <==> buf@.len() >= 4 && read_le_u32(buf@, 0) == buf@.len() - 4,
            r is Err ==> r == Err::<MessagePayload, BridgeError>(BridgeError::MalformedVaa),
            r matches Ok(p) ==> p.size == read_le_u32(buf@, 0) && p.data@ == buf@.subrange(
                4,
                buf@.len() as int,
            ),
    {
        let len: usize = buf.len();
        if len < 4 {
            return Err(BridgeError::MalformedVaa);
        }
        let size = read_u32_le(buf, 0);
        if size as usize != len - 4 {
            return Err(BridgeError::MalformedVaa);
        }
        Ok(MessagePayload { size, data: copy_range(buf, 4, len) })
    }
}

/// A posted message whose payload is kept with its length prefix.
pub struct PostedVaaV1 {
    pub meta: PostedVaaV1Metadata,
    pub payload: MessagePayload,
}

impl VaaV1Account for PostedVaaV1 {
    open spec fn hashed_bytes(&self) -> Seq<u8> {
        self.meta.preimage_with(self.payload.data@)
    }

    fn try_message_hash(&self) -> (r: [u8; 32]) {
        let m = &self.meta;
        let pre = encode_message_preimage(
            m.timestamp,
            m.nonce,
            m.emitter_chain,
            &m.emitter_address,
            m.sequence,
            m.consistency_level,
            self.payload.data.as_slice(),
        );
        keccak256(pre.as_slice())
    }
}

/// A posted message with its raw payload.
#[derive(Clone, Debug)]
pub struct PostedVaaV1Bytes {
    pub meta: PostedVaaV1Metadata,
    pub payload: Vec<u8>,
}

impl VaaV1Account for PostedVaaV1Bytes {
    open spec fn hashed_bytes(&self) -> Seq<u8> {
        self.meta.preimage_with(self.payload@)
    }

    fn try_message_hash(&self) -> (r: [u8; 32]) {
        let m = &self.meta;
        let pre = encode_message_preimage(
            m.timestamp,
            m.nonce,
            m.emitter_chain,
            &m.emitter_address,
            m.sequence,
            m.consistency_level,
            self.payload.as_slice(),
        );
        keccak256(pre.as_slice())
    }
}

impl PostedVaaV1Bytes {
    /// The hash under which this record is stored.
    pub open spec fn spec_hash(&self) -> Seq<u8> {
        keccak256_of(self.hashed_bytes())
    }

    /// Account size of a record with a payload of `payload_len` bytes.
    pub open spec fn spec_size(payload_len: int) -> int {
        4 + 87 + 4 + payload_len
    }

    pub fn compute_size(payload_len: usize) -> (r: usize)
        requires
            Self::spec_size(payload_len as int) <= usize::MAX,
        ensures
            r == Self::spec_size(payload_len as int),
    {
        4 + PostedVaaV1Metadata::INIT_SPACE + 4 + payload_len
    }
}

/// Whether some record of `records` is stored under `hash`.
pub open spec fn holds_hash(records: Seq<PostedVaaV1Bytes>, hash: Seq<u8>) -> bool {
    exists|i: int| 0 <= i < records.len() && (#[trigger] records[i]).spec_hash() == hash
}

/// The record stored under `hash`, when `holds_hash(records, hash)`.
pub open spec fn stored_with(records: Seq<PostedVaaV1Bytes>, hash: Seq<u8>) -> PostedVaaV1Bytes {
    records[choose|i: int| 0 <= i < records.len() && (#[trigger] records[i]).spec_hash() == hash]
}

/// What posting the signed message `vaa` gives: the hash it is stored under,
/// or the reason it is refused.
pub open spec fn post_outcome(
    records: Seq<PostedVaaV1Bytes>,
    sets: Seq<crate::guardian_set::GuardianSet>,
    vaa: Vaa,
    now: u32,
) -> Result<Seq<u8>, BridgeError> {
    let hash = vaa.body.spec_hash();
    if vaa.guardian_set_index >= sets.len() {
        Err(BridgeError::GuardianSetNotFound)
    } else {
        match verification_outcome(
            sets[vaa.guardian_set_index as int],
            now,
            vaa.signatures@,
            recovered_signers(hash, vaa.signatures@),
        ) {
            Err(e) => Err(e),
            Ok(_) => if holds_hash(records, hash) {
                Err(BridgeError::AlreadyPosted)
            } else {
                Ok(hash)
            },
        }
    }
}

/// Verified messages, each stored once under its message hash.
pub struct PostedVaaStore {
    hashes: Vec<[u8; 32]>,
    records: Vec<PostedVaaV1Bytes>,
}

impl View for PostedVaaStore {
    type V = Seq<PostedVaaV1Bytes>;

    closed spec fn view(&self) -> Seq<PostedVaaV1Bytes> {
        self.records@
    }
}

impl PostedVaaStore {
    pub closed spec fn wf(&self) -> bool {
        &&& self.hashes@.len() == self.records@.len()
        &&& forall|i: int|
            0 <= i < self.records@.len() ==> (#[trigger] self.hashes@[i])@
                == self.records@[i].spec_hash()
        &&& forall|i: int, j: int|
            0 <= i < j < self.records@.len() ==> self.records@[i].spec_hash()
                != self.records@[j].spec_hash()
    }

    pub fn new() -> (r: Self)
        ensures
            r.wf(),
            r@ == Seq::<PostedVaaV1Bytes>::empty(),
    {
        let r = PostedVaaStore { hashes: Vec::new(), records: Vec::new() };
        assert(r@ =~= Seq::<PostedVaaV1Bytes>::empty());
        r
    }

    /// Position of the record stored under `hash`.
    fn find(&self, hash: &[u8; 32]) -> (r: Option<usize>)
        requires
            self.wf(),
        ensures
            r matches Some(i) ==> i < self@.len() && self@[i as int].spec_hash() == hash@,
            r is None ==> !holds_hash(self@, hash@),
    {
        let mut i: usize = 0;
        while i < self.hashes.len()
            invariant
                self.wf(),
                i <= self.hashes@.len(),
                forall|j: int| 0 <= j < i ==> self.records@[j].spec_hash() != hash@,
            decreases self.hashes@.len() - i,
        {
            if bytes_eq(self.hashes[i].as_slice(), hash.as_slice()) {
                return Some(i);
            }
            i = i + 1;
        }
        None
    }

    /// The record stored under `hash`, if any.
    pub fn get(&self, hash: &[u8; 32]) -> (r: Option<&PostedVaaV1Bytes>)
        requires
            self.wf(),
        ensures
            r is Some <==> holds_hash(self@, hash@),
            r matches Some(v) ==> v.spec_hash() == hash@ && *v == stored_with(self@, hash@),
    {
        match self.find(hash) {
            Some(i) => {
                proof {
                    let j = choose|j: int|
                        0 <= j < self@.len() && (#[trigger] self@[j]).spec_hash() == hash@;
                    if j != i {
                        if j < i {
                            assert(self.records@[j].spec_hash() != self.records@[i as int].spec_hash());
                        } else {
                            assert(self.records@[i as int].spec_hash() != self.records@[j].spec_hash());
                        }
                    }
                }
                Some(&self.records[i])
            },
            None => None,
        }
    }

    /// Stores a record under its message hash, unless one is stored there.
    pub fn insert(&mut self, record: PostedVaaV1Bytes) -> (r: Result<[u8; 32], BridgeError>)
        requires
            old(self).wf(),
        ensures
            final(self).wf(),
            r is Ok <==> !holds_hash(old(self)@, record.spec_hash()),
            r is Err ==> r == Err::<[u8; 32], BridgeError>(BridgeError::AlreadyPosted) && final(self)@ == old(self)@,
            r matches Ok(h) ==> h@ == record.spec_hash() && final(self)@ == old(self)@.push(record),
    {
        let h = record.try_message_hash();
        match self.find(&h) {
            Some(_) => Err(BridgeError::AlreadyPosted),
            None => {
                self.hashes.push(h);
                self.records.push(record);
                Ok(h)
            },
        }
    }

    /// Verifies the signatures of `vaa` against the guardian set it names and,
    /// when they hold, stores it under its message hash together with the
    /// address of its signature set.
    pub fn post_vaa(
        &mut self,
        registry: &GuardianSetRegistry,
        vaa: Vaa,
        now: u32,
        signature_set: [u8; 32],
    ) -> (r: Result<[u8; 32], BridgeError>)
        requires
            old(self).wf(),
            registry.wf(),
        ensures
            final(self).wf(),
            match post_outcome(old(self)@, registry@, vaa, now) {
                Ok(h) => r matches Ok(rh) && rh@ == h,
                Err(e) => r == Err::<[u8; 32], BridgeError>(e),
            },
            r is Err ==> final(self)@ == old(self)@,
            r is Ok ==> final(self)@ == old(self)@.push(
                PostedVaaV1Bytes {
                    meta: PostedVaaV1Metadata {
                        consistency_level: vaa.body.consistency_level,
                        timestamp: vaa.body.timestamp,
                        signature_set,
                        guardian_set_index: vaa.guardian_set_index,
                        nonce: vaa.body.nonce,
                        sequence: vaa.body.sequence,
                        emitter_chain: vaa.body.emitter_chain,
                        emitter_address: vaa.body.emitter_address,
                    },
                    payload: vaa.body.payload,
                },
            ),
    {
        let set = match registry.get(vaa.guardian_set_index) {
            Some(s) => s,
            None => {
                return Err(BridgeError::GuardianSetNotFound);
            },
        };
        let hash = vaa.body.message_hash();
        match verify_signatures(set, now, &hash, &vaa.signatures) {
            Ok(_) => {},
            Err(e) => {
                return Err(e);
            },
        }
        let record = PostedVaaV1Bytes {
            meta: PostedVaaV1Metadata {
                consistency_level: vaa.body.consistency_level,
                timestamp: vaa.body.timestamp,
                signature_set,
                guardian_set_index: vaa.guardian_set_index,
                nonce: vaa.body.nonce,
                sequence: vaa.body.sequence,
                emitter_chain: vaa.body.emitter_chain,
                emitter_address: vaa.body.emitter_address,
            },
            payload: vaa.body.payload,
        };
        assert(record.hashed_bytes() == vaa.body.preimage());
        self.insert(record)
    }

    /// Stores `body` once its signatures were verified into `signature_set`
    /// (kept at address `signature_set_key`). The signature set must be for
    /// this very body, and its guardian set must still be active at `now`.
    pub fn post_verified(
        &mut self,
        registry: &GuardianSetRegistry,
        body: VaaBody,
        signature_set: &SignatureSet,
        signature_set_key: [u8; 32],
        now: u32,
    ) -> (r: Result<[u8; 32], BridgeError>)
        requires
            old(self).wf(),
            registry.wf(),
        ensures
            final(self).wf(),
            signature_set.guardian_set_index >= registry@.len() ==> r == Err::<[u8; 32], BridgeError>(
                BridgeError::GuardianSetNotFound,
            ),
            signature_set.guardian_set_index < registry@.len() ==> {
                let set = registry@[signature_set.guardian_set_index as int];
                if !set.active_at(now) {
                    r == Err::<[u8; 32], BridgeError>(BridgeError::GuardianSetExpired)
                } else if signature_set.message_hash@ != body.spec_hash() {
                    r == Err::<[u8; 32], BridgeError>(BridgeError::InvalidSignatureSet)
                } else if holds_hash(old(self)@, body.spec_hash()) {
                    r == Err::<[u8; 32], BridgeError>(BridgeError::AlreadyPosted)
                } else {
                    r matches Ok(h) && h@ == body.spec_hash()
                }
            },
            r is Err ==> final(self)@ == old(self)@,
            r is Ok ==> final(self)@ == old(self)@.push(
                PostedVaaV1Bytes {
                    meta: PostedVaaV1Metadata {
                        consistency_level: body.consistency_level,
                        timestamp: body.timestamp,
                        signature_set: signature_set_key,
                        guardian_set_index: signature_set.guardian_set_index,
                        nonce: body.nonce,
                        sequence: body.sequence,
                        emitter_chain: body.emitter_chain,
                        emitter_address: body.emitter_address,
                    },
                    payload: body.payload,
                },
            ),
    {
        let set = match registry.get(signature_set.guardian_set_index) {
            Some(s) => s,
            None => {
                return Err(BridgeError::GuardianSetNotFound);
            },
        };
        if !set.is_active(&now) {
            return Err(BridgeError::GuardianSetExpired);
        }
        let hash = body.message_hash();
        if !bytes_eq(hash.as_slice(), signature_set.message_hash.as_slice()) {
            return Err(BridgeError::InvalidSignatureSet);
        }
        let record = PostedVaaV1Bytes {
            meta: PostedVaaV1Metadata {
                consistency_level: body.consistency_level,
                timestamp: body.timestamp,
                signature_set: signature_set_key,
                guardian_set_index: signature_set.guardian_set_index,
                nonce: body.nonce,
                sequence: body.sequence,
                emitter_chain: body.emitter_chain,
                emitter_address: body.emitter_address,
            },
            payload: body.payload,
        };
        assert(record.hashed_bytes() == body.preimage());
        self.insert(record)
    }

    /// Decodes a signed message and posts it as `post_vaa` does.
    pub fn verify_and_post(
        &mut self,
        registry: &GuardianSetRegistry,
        bytes: &[u8],
        now: u32,
        signature_set: [u8; 32],
    ) -> (r: Result<[u8; 32], BridgeError>)
        requires
            old(self).wf(),
            registry.wf(),
        ensures
            final(self).wf(),
            !wire_ok(bytes@) ==> r == Err::<[u8; 32], BridgeError>(BridgeError::MalformedVaa),
            wire_ok(bytes@) ==> exists|v: Vaa|
                #![trigger vaa_decodes(v, bytes@)]
                vaa_decodes(v, bytes@) && match post_outcome(old(self)@, registry@, v, now) {
                    Ok(h) => r matches Ok(rh) && rh@ == h,
                    Err(e) => r == Err::<[u8; 32], BridgeError>(e),
                },
            r is Err ==> final(self)@ == old(self)@,
            r matches Ok(h) ==> h@ == keccak256_of(
                bytes@.subrange(body_offset(bytes@), bytes@.len() as int),
            ) && final(self)@.len() == old(self)@.len() + 1,
    {
        match parse_vaa(bytes) {
            Err(e) => Err(e),
            Ok(v) => {
                proof {
                    lemma_decoded_body_preimage(v, bytes@);
                }
                let ghost gv = v;
                let r = self.post_vaa(registry, v, now, signature_set);
                assert(vaa_decodes(gv, bytes@));
                r
            },
        }
    }

    /// Closes the record stored under `hash`. The signature set named by the
    /// record must be supplied when it has one; a record without one (all-zero
    /// address) is closed without it.
    pub fn close_posted_vaa_v1(
        &mut self,
        hash: &[u8; 32],
        signature_set: Option<[u8; 32]>,
        directive: ClosePostedVaaV1Directive,
    ) -> (r: Result<PostedVaaV1Bytes, BridgeError>)
        requires
            old(self).wf(),
        ensures
            final(self).wf(),
            !holds_hash(old(self)@, hash@) ==> r == Err::<PostedVaaV1Bytes, BridgeError>(
                BridgeError::PostedVaaNotFound,
            ),
            r is Err ==> final(self)@ == old(self)@,
            r matches Ok(v) ==> exists|i: int|
                0 <= i < old(self)@.len() && old(self)@[i] == v && v.spec_hash() == hash@ && final(self)@ == old(self)@.remove(i),
            holds_hash(old(self)@, hash@) ==> forall|i: int|
                0 <= i < old(self)@.len() && (#[trigger] old(self)@[i]).spec_hash() == hash@ ==> {
                    let named = old(self)@[i].meta.signature_set@;
                    match signature_set {
                        Some(k) => (r is Ok <==> k@ == named) && (r is Err ==> r
                            == Err::<PostedVaaV1Bytes, BridgeError>(
                            BridgeError::InvalidSignatureSet,
                        )),
                        None => (r is Ok <==> named == Seq::new(32, |j: int| 0u8)) && (r is Err
                            ==> r == Err::<PostedVaaV1Bytes, BridgeError>(
                            BridgeError::AccountNotEnoughKeys,
                        )),
                    }
                },
    {
        let i = match self.find(hash) {
            Some(i) => i,
            None => {
                return Err(BridgeError::PostedVaaNotFound);
            },
        };
        match directive {
            ClosePostedVaaV1Directive::TryOnce => {},
        }
        proof {
            assert forall|j: int|
                0 <= j < self.records@.len() && (#[trigger] self.records@[j]).spec_hash()
                    == hash@ implies j == i by {
                if j != i {
                    assert(self.records@[j].spec_hash() != self.records@[i as int].spec_hash());
                }
            }
        }
        let zero: [u8; 32] = [0u8; 32];
        let named = &self.records[i].meta.signature_set;
        let ok = match &signature_set {
            Some(k) => bytes_eq(k.as_slice(), named.as_slice()),
            None => bytes_eq(zero.as_slice(), named.as_slice()),
        };
        assert(zero@ =~= Seq::new(32, |j: int| 0u8));
        if !ok {
            return match signature_set {
                Some(_) => Err(BridgeError::InvalidSignatureSet),
                None => Err(BridgeError::AccountNotEnoughKeys),
            };
        }
        let ghost before = self.records@;
        self.hashes.remove(i);
        let rec = self.records.remove(i);
        proof {
            assert forall|a: int, b: int|
                0 <= a < b < self.records@.len() implies self.records@[a].spec_hash()
                != self.records@[b].spec_hash() by {
                let a0 = if a < i { a } else { a + 1 };
                let b0 = if b < i { b } else { b + 1 };
                assert(self.records@[a] == before[a0]);
                assert(self.records@[b] == before[b0]);
            }
        }
        Ok(rec)
    }
}

/// How a posted record is closed.
pub enum ClosePostedVaaV1Directive {
    TryOnce,
}

} // verus!
