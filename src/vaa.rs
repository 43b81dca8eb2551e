//! Message bodies, their canonical hash, the signed wire format, and the
//! records of posted messages.
use vstd::prelude::*;

use crate::bytes::{
    be_u16, be_u32, be_u64, copy_range, lemma_be_u16_round_trip, lemma_be_u32_round_trip,
    lemma_be_u64_round_trip, push_all, push_be_u16, push_be_u32, push_be_u64, read_array32,
    read_array64, read_be_u16, read_be_u32, read_be_u64, read_u16_be, read_u32_be, read_u64_be,
};
use crate::crypto::{keccak256, keccak256_of};
use crate::error::BridgeError;

verus! {

/// Length of the fixed part of a body, before its payload.
pub const BODY_HEADER_LEN: usize = 51;

/// Length of one encoded guardian signature.
pub const SIGNATURE_ENTRY_LEN: usize = 66;

/// The bytes that the message hash is taken over: all integers big-endian.
pub open spec fn message_preimage(
    timestamp: u32,
    nonce: u32,
    emitter_chain: u16,
    emitter_address: Seq<u8>,
    sequence: u64,
    consistency_level: u8,
    payload: Seq<u8>,
) -> Seq<u8> {
    be_u32(timestamp) + be_u32(nonce) + be_u16(emitter_chain) + emitter_address + be_u64(sequence)
        + seq![consistency_level] + payload
}

/// Encodes the message-hash preimage.
pub fn encode_message_preimage(
    timestamp: u32,
    nonce: u32,
    emitter_chain: u16,
    emitter_address: &[u8; 32],
    sequence: u64,
    consistency_level: u8,
    payload: &[u8],
) -> (r: Vec<u8>)
    ensures
        r@ == message_preimage(
            timestamp,
            nonce,
            emitter_chain,
            emitter_address@,
            sequence,
            consistency_level,
            payload@,
        ),
{
    let mut v: Vec<u8> = Vec::new();
    push_be_u32(&mut v, timestamp);
    push_be_u32(&mut v, nonce);
    push_be_u16(&mut v, emitter_chain);
    push_all(&mut v, emitter_address.as_slice());
    push_be_u64(&mut v, sequence);
    v.push(consistency_level);
    push_all(&mut v, payload);
    assert(v@ =~= message_preimage(
        timestamp,
        nonce,
        emitter_chain,
        emitter_address@,
        sequence,
        consistency_level,
        payload@,
    ));
    v
}

/// The attested content of a message.
pub struct VaaBody {
    pub timestamp: u32,
    pub nonce: u32,
    pub emitter_chain: u16,
    pub emitter_address: [u8; 32],
    pub sequence: u64,
    pub consistency_level: u8,
    pub payload: Vec<u8>,
}

impl VaaBody {
    pub open spec fn preimage(&self) -> Seq<u8> {
        message_preimage(
            self.timestamp,
            self.nonce,
            self.emitter_chain,
            self.emitter_address@,
            self.sequence,
            self.consistency_level,
            self.payload@,
        )
    }

    /// The canonical identity of the message.
    pub open spec fn spec_hash(&self) -> Seq<u8> {
        keccak256_of(self.preimage())
    }

    /// Whether two bodies hold the same fields.
    pub open spec fn same_fields(&self, o: &VaaBody) -> bool {
        &&& self.timestamp == o.timestamp
        &&& self.nonce == o.nonce
        &&& self.emitter_chain == o.emitter_chain
        &&& self.emitter_address@ == o.emitter_address@
        &&& self.sequence == o.sequence
        &&& self.consistency_level == o.consistency_level
        &&& self.payload@ == o.payload@
    }

    /// The bytes the message hash is taken over.
    pub fn message_preimage(&self) -> (r: Vec<u8>)
        ensures
            r@ == self.preimage(),
    {
        encode_message_preimage(
            self.timestamp,
            self.nonce,
            self.emitter_chain,
            &self.emitter_address,
            self.sequence,
            self.consistency_level,
            self.payload.as_slice(),
        )
    }

    /// Keccak-256 of the preimage.
    pub fn message_hash(&self) -> (r: [u8; 32])
        ensures
            r@ == self.spec_hash(),
    {
        let pre = self.message_preimage();
        keccak256(pre.as_slice())
    }
}

/// The preimage encoding loses nothing: two bodies with the same preimage hold
/// the same fields, so they can only share a hash through a collision of the
/// hash function itself. Hashing is a function of the body, so hashing one
/// body twice gives the same digest.
pub proof fn lemma_preimage_injective(a: VaaBody, b: VaaBody)
    ensures
        a.preimage() == b.preimage() <==> a.same_fields(&b),
        a.same_fields(&b) ==> a.spec_hash() == b.spec_hash(),
{
    if a.preimage() == b.preimage() {
        let pa = a.preimage();
        let pb = b.preimage();
        assert(pa.subrange(0, 4) =~= be_u32(a.timestamp));
        assert(pb.subrange(0, 4) =~= be_u32(b.timestamp));
        lemma_be_u32_round_trip(a.timestamp);
        lemma_be_u32_round_trip(b.timestamp);
        assert(pa.subrange(4, 8) =~= be_u32(a.nonce));
        assert(pb.subrange(4, 8) =~= be_u32(b.nonce));
        lemma_be_u32_round_trip(a.nonce);
        lemma_be_u32_round_trip(b.nonce);
        assert(pa.subrange(8, 10) =~= be_u16(a.emitter_chain));
        assert(pb.subrange(8, 10) =~= be_u16(b.emitter_chain));
        lemma_be_u16_round_trip(a.emitter_chain);
        lemma_be_u16_round_trip(b.emitter_chain);
        assert(pa.subrange(10, 42) =~= a.emitter_address@);
        assert(pb.subrange(10, 42) =~= b.emitter_address@);
        assert(pa.subrange(42, 50) =~= be_u64(a.sequence));
        assert(pb.subrange(42, 50) =~= be_u64(b.sequence));
        lemma_be_u64_round_trip(a.sequence);
        lemma_be_u64_round_trip(b.sequence);
        assert(pa[50] == a.consistency_level);
        assert(pb[50] == b.consistency_level);
        assert(pa.subrange(51, pa.len() as int) =~= a.payload@);
        assert(pb.subrange(51, pb.len() as int) =~= b.payload@);
    }
    if a.same_fields(&b) {
        assert(a.preimage() == b.preimage());
    }
}

/// One guardian's signature: the guardian's position in its set, the 64-byte
/// compact signature `r ∥ s`, and the recovery id.
pub struct GuardianSignature {
    pub guardian_index: u8,
    pub signature: [u8; 64],
    pub recovery_id: u8,
}

/// A signed message as it travels on the wire.
pub struct Vaa {
    pub version: u8,
    pub guardian_set_index: u32,
    pub signatures: Vec<GuardianSignature>,
    pub body: VaaBody,
}

/// Whether `b` is a well-formed signed message: version one, and long enough
/// for its signatures and the fixed part of its body.
pub open spec fn wire_ok(b: Seq<u8>) -> bool {
    &&& b.len() >= 6
    &&& b[0] == 1
    &&& b.len() >= 6 + 66 * (b[5] as int) + 51
}

/// Offset of the body in a well-formed signed message.
pub open spec fn body_offset(b: Seq<u8>) -> int {
    6 + 66 * (b[5] as int)
}

/// Whether `body` holds what the bytes `b[off..]` encode.
pub open spec fn body_decodes(body: VaaBody, b: Seq<u8>, off: int) -> bool {
    &&& body.timestamp == read_be_u32(b, off)
    &&& body.nonce == read_be_u32(b, off + 4)
    &&& body.emitter_chain == read_be_u16(b, off + 8)
    &&& body.emitter_address@ == b.subrange(off + 10, off + 42)
    &&& body.sequence == read_be_u64(b, off + 42)
    &&& body.consistency_level == b[off + 50]
    &&& body.payload@ == b.subrange(off + 51, b.len() as int)
}

/// Whether `s` holds the signature encoded at `b[at..at + 66]`.
pub open spec fn signature_decodes(s: GuardianSignature, b: Seq<u8>, at: int) -> bool {
    &&& s.guardian_index == b[at]
    &&& s.signature@ == b.subrange(at + 1, at + 65)
    &&& s.recovery_id == b[at + 65]
}

/// Whether `v` holds what the well-formed signed message `b` encodes.
pub open spec fn vaa_decodes(v: Vaa, b: Seq<u8>) -> bool {
    &&& v.version == b[0]
    &&& v.guardian_set_index == read_be_u32(b, 1)
    &&& v.signatures@.len() == b[5] as int
    &&& forall|i: int|
        0 <= i < v.signatures@.len() ==> signature_decodes(
            #[trigger] v.signatures@[i],
            b,
            6 + 66 * i,
        )
    &&& body_decodes(v.body, b, body_offset(b))
}

/// Reads the body encoded at `b[off..]`.
fn parse_body(b: &[u8], off: usize) -> (r: VaaBody)
    requires
        off + 51 <= b@.len(),
    ensures
        body_decodes(r, b@, off as int),
{
    let len: usize = b.len();
    VaaBody {
        timestamp: read_u32_be(b, off),
        nonce: read_u32_be(b, off + 4),
        emitter_chain: read_u16_be(b, off + 8),
        emitter_address: read_array32(b, off + 10),
        sequence: read_u64_be(b, off + 42),
        consistency_level: b[off + 50],
        payload: copy_range(b, off + 51, len),
    }
}

/// Decodes a signed message: `version:u8 ∥ guardian_set_index:u32 ∥
/// count:u8 ∥ count × (guardian_index:u8 ∥ signature:64 ∥ recovery_id:u8) ∥
/// body`, where the body is `timestamp:u32 ∥ nonce:u32 ∥ emitter_chain:u16 ∥
/// emitter_address:32 ∥ sequence:u64 ∥ consistency_level:u8 ∥ payload`.
pub fn parse_vaa(b: &[u8]) -> (r: Result<Vaa, BridgeError>)
    ensures
        r is Ok <==> wire_ok(b@),
        r is Err ==> r == Err::<Vaa, BridgeError>(BridgeError::MalformedVaa),
        r matches Ok(v) ==> vaa_decodes(v, b@),
{
    let len: usize = b.len();
    if len < 6 || b[0] != 1 {
        return Err(BridgeError::MalformedVaa);
    }
    let count: usize = b[5] as usize;
    let off: usize = 6 + 66 * count;
    if len < off || len - off < BODY_HEADER_LEN {
        return Err(BridgeError::MalformedVaa);
    }
    let mut signatures: Vec<GuardianSignature> = Vec::new();
    let mut i: usize = 0;
    while i < count
        invariant
            i <= count,
            count == b@[5] as int,
            len == b@.len(),
            off == 6 + 66 * count,
            off + 51 <= len,
            signatures@.len() == i,
            forall|j: int|
                0 <= j < i ==> signature_decodes(#[trigger] signatures@[j], b@, 6 + 66 * j),
        decreases count - i,
    {
        let at: usize = 6 + 66 * i;
        let sig = GuardianSignature {
            guardian_index: b[at],
            signature: read_array64(b, at + 1),
            recovery_id: b[at + 65],
        };
        signatures.push(sig);
        i = i + 1;
    }
    let body = parse_body(b, off);
    Ok(Vaa { version: b[0], guardian_set_index: read_u32_be(b, 1), signatures, body })
}

/// The body of a well-formed signed message encodes to exactly the bytes it
/// was read from, so its hash is the hash of those bytes.
pub proof fn lemma_decoded_body_preimage(v: Vaa, b: Seq<u8>)
    requires
        wire_ok(b),
        vaa_decodes(v, b),
    ensures
        v.body.preimage() == b.subrange(body_offset(b), b.len() as int),
{
    let off = body_offset(b);
    let body = v.body;
    let ts = b.subrange(off, off + 4);
    assert(be_u32(body.timestamp) =~= ts) by {
        let x = body.timestamp;
        let (b0, b1, b2, b3) = (b[off], b[off + 1], b[off + 2], b[off + 3]);
        assert(x == ((b0 as u32) << 24u32) | ((b1 as u32) << 16u32) | ((b2 as u32) << 8u32) | (
        b3 as u32));
        assert((x >> 24u32) as u8 == b0 && (x >> 16u32) as u8 == b1 && (x >> 8u32) as u8 == b2
            && x as u8 == b3) by (bit_vector)
            requires
                x == ((b0 as u32) << 24u32) | ((b1 as u32) << 16u32) | ((b2 as u32) << 8u32) | (
                b3 as u32),
        ;
    }
    assert(be_u32(body.nonce) =~= b.subrange(off + 4, off + 8)) by {
        let x = body.nonce;
        let (b0, b1, b2, b3) = (b[off + 4], b[off + 5], b[off + 6], b[off + 7]);
        assert(x == ((b0 as u32) << 24u32) | ((b1 as u32) << 16u32) | ((b2 as u32) << 8u32) | (
        b3 as u32));
        assert((x >> 24u32) as u8 == b0 && (x >> 16u32) as u8 == b1 && (x >> 8u32) as u8 == b2
            && x as u8 == b3) by (bit_vector)
            requires
                x == ((b0 as u32) << 24u32) | ((b1 as u32) << 16u32) | ((b2 as u32) << 8u32) | (
                b3 as u32),
        ;
    }
    assert(be_u16(body.emitter_chain) =~= b.subrange(off + 8, off + 10)) by {
        let x = body.emitter_chain;
        let (b0, b1) = (b[off + 8], b[off + 9]);
        assert(x == ((b0 as u16) << 8u16) | (b1 as u16));
        assert((x >> 8u16) as u8 == b0 && x as u8 == b1) by (bit_vector)
            requires
                x == ((b0 as u16) << 8u16) | (b1 as u16),
        ;
    }
    assert(be_u64(body.sequence) =~= b.subrange(off + 42, off + 50)) by {
        let x = body.sequence;
        let (b0, b1, b2, b3, b4, b5, b6, b7) = (
            b[off + 42],
            b[off + 43],
            b[off + 44],
            b[off + 45],
            b[off + 46],
            b[off + 47],
            b[off + 48],
            b[off + 49],
        );
        assert(x == ((b0 as u64) << 56u64) | ((b1 as u64) << 48u64) | ((b2 as u64) << 40u64) | ((
        b3 as u64) << 32u64) | ((b4 as u64) << 24u64) | ((b5 as u64) << 16u64) | ((b6 as u64)
            << 8u64) | (b7 as u64));
        assert((x >> 56u64) as u8 == b0 && (x >> 48u64) as u8 == b1 && (x >> 40u64) as u8 == b2
            && (x >> 32u64) as u8 == b3 && (x >> 24u64) as u8 == b4 && (x >> 16u64) as u8 == b5
            && (x >> 8u64) as u8 == b6 && x as u8 == b7) by (bit_vector)
            requires
                x == ((b0 as u64) << 56u64) | ((b1 as u64) << 48u64) | ((b2 as u64) << 40u64) | ((
                b3 as u64) << 32u64) | ((b4 as u64) << 24u64) | ((b5 as u64) << 16u64) | ((
                b6 as u64) << 8u64) | (b7 as u64),
        ;
    }
    assert(body.preimage() =~= b.subrange(off, b.len() as int));
}

/// Wire bytes of one signature.
pub open spec fn signature_bytes(s: GuardianSignature) -> Seq<u8> {
    seq![s.guardian_index] + s.signature@ + seq![s.recovery_id]
}

/// Wire bytes of a list of signatures, one after the other.
pub open spec fn signatures_bytes(sigs: Seq<GuardianSignature>) -> Seq<u8>
    decreases sigs.len(),
{
    if sigs.len() == 0 {
        Seq::empty()
    } else {
        signatures_bytes(sigs.drop_last()) + signature_bytes(sigs.last())
    }
}

/// Wire bytes of a signed message.
pub open spec fn vaa_bytes(v: Vaa) -> Seq<u8> {
    seq![v.version] + be_u32(v.guardian_set_index) + seq![v.signatures@.len() as u8]
        + signatures_bytes(v.signatures@) + v.body.preimage()
}

proof fn lemma_signatures_bytes(sigs: Seq<GuardianSignature>, i: int)
    ensures
        signatures_bytes(sigs).len() == 66 * sigs.len(),
        0 <= i < sigs.len() ==> signatures_bytes(sigs).subrange(66 * i, 66 * i + 66)
            == signature_bytes(sigs[i]),
    decreases sigs.len(),
{
    if sigs.len() > 0 {
        let init = sigs.drop_last();
        lemma_signatures_bytes(init, i);
        let b = signatures_bytes(sigs);
        assert(b.len() == 66 * sigs.len()) by (nonlinear_arith)
            requires
                b.len() == 66 * init.len() + 66,
                init.len() == sigs.len() - 1,
        ;
        if 0 <= i < sigs.len() {
            if i < init.len() {
                assert(66 * i + 66 <= 66 * init.len()) by (nonlinear_arith)
                    requires
                        i < init.len(),
                ;
                assert(b.subrange(66 * i, 66 * i + 66) =~= signatures_bytes(init).subrange(
                    66 * i,
                    66 * i + 66,
                ));
            } else {
                assert(b.subrange(66 * i, 66 * i + 66) =~= signature_bytes(sigs.last()));
            }
        }
    }
}

impl Vaa {
    /// Encodes the message in the wire format that `parse_vaa` reads.
    pub fn encode(&self) -> (r: Vec<u8>)
        requires
            self.signatures@.len() <= 255,
        ensures
            r@ == vaa_bytes(*self),
    {
        let mut v: Vec<u8> = Vec::new();
        v.push(self.version);
        push_be_u32(&mut v, self.guardian_set_index);
        let n: usize = self.signatures.len();
        v.push(n as u8);
        let ghost head = v@;
        let mut i: usize = 0;
        while i < n
            invariant
                n == self.signatures@.len(),
                i <= n,
                v@ == head + signatures_bytes(self.signatures@.subrange(0, i as int)),
            decreases n - i,
        {
            let s = &self.signatures[i];
            v.push(s.guardian_index);
            push_all(&mut v, s.signature.as_slice());
            v.push(s.recovery_id);
            proof {
                let next = self.signatures@.subrange(0, i + 1);
                assert(next.drop_last() =~= self.signatures@.subrange(0, i as int));
                assert(v@ =~= head + signatures_bytes(next));
            }
            i = i + 1;
        }
        assert(self.signatures@.subrange(0, n as int) =~= self.signatures@);
        let body = self.body.message_preimage();
        push_all(&mut v, body.as_slice());
        assert(v@ =~= vaa_bytes(*self));
        v
    }
}

/// Encoding a version-one message with at most 255 signatures gives bytes
/// that are well formed and decode to the same message.
pub proof fn lemma_encode_then_decode(v: Vaa)
    requires
        v.version == 1,
        v.signatures@.len() <= 255,
    ensures
        wire_ok(vaa_bytes(v)),
        vaa_decodes(v, vaa_bytes(v)),
{
    let b = vaa_bytes(v);
    let n = v.signatures@.len() as int;
    let sb = signatures_bytes(v.signatures@);
    lemma_signatures_bytes(v.signatures@, 0);
    assert(b[5] == n as u8);
    assert(b[5] as int == n);
    let off: int = 6 + 66 * n;
    assert(b.subrange(6, off) =~= sb);
    assert(b.subrange(off, b.len() as int) =~= v.body.preimage());
    lemma_be_u32_round_trip(v.guardian_set_index);
    assert(b.subrange(1, 5) =~= be_u32(v.guardian_set_index));
    assert(read_be_u32(b, 1) == read_be_u32(be_u32(v.guardian_set_index), 0));
    assert forall|i: int| 0 <= i < n implies signature_decodes(#[trigger] v.signatures@[i], b, 6 + 66 * i) by {
        lemma_signatures_bytes(v.signatures@, i);
        assert(66 * i + 66 <= 66 * n) by (nonlinear_arith)
            requires
                i < n,
        ;
        let at = 6 + 66 * i;
        assert(b.subrange(at, at + 66) =~= sb.subrange(66 * i, 66 * i + 66));
        assert(b.subrange(at + 1, at + 65) =~= signature_bytes(v.signatures@[i]).subrange(1, 65));
        assert(signature_bytes(v.signatures@[i]).subrange(1, 65) =~= v.signatures@[i].signature@);
        assert(b[at] == signature_bytes(v.signatures@[i])[0]);
        assert(b[at + 65] == signature_bytes(v.signatures@[i])[65]);
    }
    let body = v.body;
    let pre = body.preimage();
    assert(pre.subrange(0, 4) =~= be_u32(body.timestamp));
    assert(pre.subrange(4, 8) =~= be_u32(body.nonce));
    assert(pre.subrange(8, 10) =~= be_u16(body.emitter_chain));
    assert(pre.subrange(42, 50) =~= be_u64(body.sequence));
    lemma_be_u32_round_trip(body.timestamp);
    lemma_be_u32_round_trip(body.nonce);
    lemma_be_u16_round_trip(body.emitter_chain);
    lemma_be_u64_round_trip(body.sequence);
    assert(read_be_u32(b, off) == read_be_u32(be_u32(body.timestamp), 0));
    assert(read_be_u32(b, off + 4) == read_be_u32(be_u32(body.nonce), 0));
    assert(read_be_u16(b, off + 8) == read_be_u16(be_u16(body.emitter_chain), 0));
    assert(read_be_u64(b, off + 42) == read_be_u64(be_u64(body.sequence), 0));
    assert(b.subrange(off + 10, off + 42) =~= body.emitter_address@);
    assert(b.subrange(off + 51, b.len() as int) =~= body.payload@);
}

} // verus!
