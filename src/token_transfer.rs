//! Token-bridge messages: attesting native tokens, sending transfers and
//! redeeming transfers and attestations that arrive from other chains. Moving
//! the tokens themselves (custody, burn, mint, metadata) is left to the
//! caller; these functions decide what is sent or owed.
use vstd::prelude::*;

use crate::bytes::{
    all_zero, be_u16, be_u64, bytes_eq, copy_range, push_all, push_be_u16, push_be_u64,
    read_array32, read_be_u16, read_be_u64, read_u16_be, read_u64_be,
};
use crate::claim::{Claim, ClaimLedger};
use crate::error::BridgeError;
use crate::governance::{consumed, vaa_claimed, SOLANA_CHAIN};
use crate::message::{counters_advanced, next_sequence, posted_hash, publish, EmitterSequences};
use crate::posted_vaa::{holds_hash, stored_with, PostedVaaStore, PostedVaaV1Bytes};
use crate::token::{
    find_program_address, is_native_mint, native_authority, new_sender_address, normalize_amount,
    normalized, optional_key_at, program_address_of, mint_parse_error, string_to_fixed32, fixed32, truncate_amount,
    truncated, Mint, MAX_DECIMALS, MINT_LEN, PROGRAM_SENDER_SEED_PREFIX, TOKEN_BRIDGE_PROGRAM_ID,
    TOKEN_PROGRAM_ID,
};
use crate::token_bridge::{has_pair, RegisteredEmitters};
use vstd::utf8::encode_utf8;

verus! {

/// Seed of the token bridge's emitter address.
pub const EMITTER_SEED_PREFIX: [u8; 7] = [101, 109, 105, 116, 116, 101, 114];

/// Consistency level of token-bridge messages: finalized.
pub const FINALIZED: u8 = 32;

/// Longest symbol that token metadata keeps.
pub const MAX_SYMBOL_LENGTH: usize = 10;

/// A token of another chain, minted here by the bridge.
pub struct WrappedAsset {
    pub token_chain: u16,
    pub token_address: [u8; 32],
    pub native_decimals: u8,
}

/// A 256-bit big-endian amount holding a `u64`.
pub open spec fn u256_of(x: u64) -> Seq<u8> {
    Seq::new(24, |i: int| 0u8) + be_u64(x)
}

fn push_u256(v: &mut Vec<u8>, x: u64)
    ensures
        final(v)@ == old(v)@ + u256_of(x),
{
    let zeros: [u8; 24] = [0u8; 24];
    push_all(v, zeros.as_slice());
    push_be_u64(v, x);
    assert(zeros@ =~= Seq::new(24, |i: int| 0u8));
    assert(final(v)@ =~= old(v)@ + u256_of(x));
}

/// Attestation message: `2 ∥ token_address ∥ token_chain ∥ decimals ∥ symbol ∥ name`.
pub open spec fn attestation_payload(
    token_address: Seq<u8>,
    token_chain: u16,
    decimals: u8,
    symbol: Seq<u8>,
    name: Seq<u8>,
) -> Seq<u8> {
    seq![2u8] + token_address + be_u16(token_chain) + seq![decimals] + symbol + name
}

/// Transfer message: `1 ∥ amount ∥ token_address ∥ token_chain ∥ recipient ∥
/// recipient_chain ∥ relayer_fee`, amounts as 256-bit integers.
pub open spec fn transfer_payload(
    amount: u64,
    token_address: Seq<u8>,
    token_chain: u16,
    recipient: Seq<u8>,
    recipient_chain: u16,
    fee: u64,
) -> Seq<u8> {
    seq![1u8] + u256_of(amount) + token_address + be_u16(token_chain) + recipient + be_u16(
        recipient_chain,
    ) + u256_of(fee)
}

/// Transfer-with-payload message: `3 ∥ amount ∥ token_address ∥ token_chain ∥
/// redeemer ∥ redeemer_chain ∥ sender ∥ payload`.
pub open spec fn transfer_with_message_payload(
    amount: u64,
    token_address: Seq<u8>,
    token_chain: u16,
    redeemer: Seq<u8>,
    redeemer_chain: u16,
    sender: Seq<u8>,
    payload: Seq<u8>,
) -> Seq<u8> {
    seq![3u8] + u256_of(amount) + token_address + be_u16(token_chain) + redeemer + be_u16(
        redeemer_chain,
    ) + sender + payload
}

/// The token bridge's emitter address, derived from its program id.
pub fn token_bridge_emitter() -> (r: Option<[u8; 32]>)
    ensures
        match program_address_of(EMITTER_SEED_PREFIX@, TOKEN_BRIDGE_PROGRAM_ID@) {
            Some(a) => r is Some && r->0@ == a,
            None => r is None,
        },
{
    let seed = EMITTER_SEED_PREFIX;
    let program = TOKEN_BRIDGE_PROGRAM_ID;
    find_program_address(seed.as_slice(), &program)
}

/// Whether the token bridge has an emitter address.
pub open spec fn has_emitter() -> bool {
    program_address_of(EMITTER_SEED_PREFIX@, TOKEN_BRIDGE_PROGRAM_ID@) is Some
}

/// The token bridge's emitter address, when it has one.
pub open spec fn emitter_spec() -> Seq<u8> {
    program_address_of(EMITTER_SEED_PREFIX@, TOKEN_BRIDGE_PROGRAM_ID@)->0
}

/// Whether `r` is what publishing `payload` from the token bridge's emitter
/// gives, given the counters before and after.
pub open spec fn published_as(
    r: Result<(u64, [u8; 32]), BridgeError>,
    before: Seq<crate::message::EmitterSequence>,
    after: Seq<crate::message::EmitterSequence>,
    payload: Seq<u8>,
    nonce: u32,
    timestamp: u32,
) -> bool {
    if !has_emitter() {
        r == Err::<(u64, [u8; 32]), BridgeError>(BridgeError::InvalidEmitter) && after == before
    } else if next_sequence(before, emitter_spec()) == u64::MAX {
        r == Err::<(u64, [u8; 32]), BridgeError>(BridgeError::NumericOverflow) && after == before
    } else {
        r matches Ok((seq, hash)) && seq == next_sequence(before, emitter_spec()) && counters_advanced(
            before,
            after,
            emitter_spec(),
        ) && hash@ == posted_hash(
            timestamp,
            nonce,
            SOLANA_CHAIN,
            emitter_spec(),
            seq,
            FINALIZED,
            payload,
        )
    }
}

/// Publishes a token-bridge message from the bridge's emitter.
fn post_token_bridge_message(
    sequences: &mut EmitterSequences,
    payload: Vec<u8>,
    nonce: u32,
    timestamp: u32,
) -> (r: Result<(u64, [u8; 32]), BridgeError>)
    ensures
        published_as(r, old(sequences)@, final(sequences)@, payload@, nonce, timestamp),
{
    let emitter = match token_bridge_emitter() {
        Some(e) => e,
        None => {
            return Err(BridgeError::InvalidEmitter);
        },
    };
    publish(sequences, emitter, payload, nonce, FINALIZED, timestamp, SOLANA_CHAIN)
}

/// The reason, if any, that an account is not a native mint of the token
/// program.
pub open spec fn native_mint_error(owner: Seq<u8>, data: Seq<u8>) -> Option<BridgeError> {
    match mint_parse_error(owner, data) {
        Some(e) => Some(e),
        None => if native_authority(optional_key_at(data, 0)) {
            None
        } else {
            Some(BridgeError::WrappedAsset)
        },
    }
}

fn parse_native_mint(owner: &[u8; 32], data: Vec<u8>) -> (r: Result<Mint, BridgeError>)
    ensures
        match native_mint_error(owner@, data@) {
            Some(e) => r == Err::<Mint, BridgeError>(e),
            None => r matches Ok(m) && m@ == data@,
        },
{
    let mint = match Mint::parse(owner, data) {
        Ok(m) => m,
        Err(e) => {
            return Err(e);
        },
    };
    if !is_native_mint(&mint) {
        return Err(BridgeError::WrappedAsset);
    }
    Ok(mint)
}

/// Attests a native token: publishes its address, decimals, symbol and name
/// (each cut or zero-padded to 32 bytes).
pub fn attest_token(
    sequences: &mut EmitterSequences,
    mint_owner: &[u8; 32],
    mint_key: &[u8; 32],
    mint_data: Vec<u8>,
    symbol: &String,
    name: &String,
    nonce: u32,
    timestamp: u32,
) -> (r: Result<(u64, [u8; 32]), BridgeError>)
    ensures
        native_mint_error(mint_owner@, mint_data@) matches Some(e) ==> r == Err::<
            (u64, [u8; 32]),
            BridgeError,
        >(e) && final(sequences)@ == old(sequences)@,
        native_mint_error(mint_owner@, mint_data@) is None ==> published_as(
            r,
            old(sequences)@,
            final(sequences)@,
            attestation_payload(
                mint_key@,
                SOLANA_CHAIN,
                mint_data@[44],
                fixed32(encode_utf8(symbol@)),
                fixed32(encode_utf8(name@)),
            ),
            nonce,
            timestamp,
        ),
{
    let mint = match parse_native_mint(mint_owner, mint_data) {
        Ok(m) => m,
        Err(e) => {
            return Err(e);
        },
    };
    let decimals = mint.decimals();
    let sym = string_to_fixed32(symbol);
    let nm = string_to_fixed32(name);
    let mut p: Vec<u8> = Vec::new();
    p.push(2u8);
    push_all(&mut p, mint_key.as_slice());
    push_be_u16(&mut p, SOLANA_CHAIN);
    p.push(decimals);
    push_all(&mut p, sym.as_slice());
    push_all(&mut p, nm.as_slice());
    assert(p@ =~= attestation_payload(mint_key@, SOLANA_CHAIN, decimals, sym@, nm@));
    post_token_bridge_message(sequences, p, nonce, timestamp)
}

/// Sends native tokens to another chain. The amount is cut to the digits a
/// transfer can carry; the caller deposits the returned amount into custody.
/// Amounts in the message are scaled to at most eight decimals.
pub fn transfer_tokens_native(
    sequences: &mut EmitterSequences,
    mint_owner: &[u8; 32],
    mint_key: &[u8; 32],
    mint_data: Vec<u8>,
    amount: u64,
    relayer_fee: u64,
    recipient: [u8; 32],
    recipient_chain: u16,
    nonce: u32,
    timestamp: u32,
) -> (r: Result<(u64, u64, [u8; 32]), BridgeError>)
    requires
        mint_data@.len() == MINT_LEN ==> mint_data@[44] <= MAX_DECIMALS + 19,
    ensures
        native_mint_error(mint_owner@, mint_data@) matches Some(e) ==> r == Err::<
            (u64, u64, [u8; 32]),
            BridgeError,
        >(e) && final(sequences)@ == old(sequences)@,
        native_mint_error(mint_owner@, mint_data@) is None && amount < relayer_fee ==> r == Err::<
            (u64, u64, [u8; 32]),
            BridgeError,
        >(BridgeError::InvalidRelayerFee) && final(sequences)@ == old(sequences)@,
        native_mint_error(mint_owner@, mint_data@) is None && amount >= relayer_fee ==> {
            let d = mint_data@[44];
            let deposited = truncated(amount, d) as u64;
            let as_published = match r {
                Ok((_, seq, hash)) => Ok::<(u64, [u8; 32]), BridgeError>((seq, hash)),
                Err(e) => Err(e),
            };
            &&& r matches Ok((dep, _, _)) ==> dep == deposited
            &&& published_as(
                as_published,
                old(sequences)@,
                final(sequences)@,
                transfer_payload(
                    normalized(deposited, d) as u64,
                    mint_key@,
                    SOLANA_CHAIN,
                    recipient@,
                    recipient_chain,
                    normalized(relayer_fee, d) as u64,
                ),
                nonce,
                timestamp,
            )
        },
{
    let mint = match parse_native_mint(mint_owner, mint_data) {
        Ok(m) => m,
        Err(e) => {
            return Err(e);
        },
    };
    if amount < relayer_fee {
        return Err(BridgeError::InvalidRelayerFee);
    }
    let decimals = mint.decimals();
    let deposited = truncate_amount(amount, decimals);
    let norm_amount = normalize_amount(deposited, decimals);
    let norm_fee = normalize_amount(relayer_fee, decimals);
    let mut p: Vec<u8> = Vec::new();
    p.push(1u8);
    push_u256(&mut p, norm_amount);
    push_all(&mut p, mint_key.as_slice());
    push_be_u16(&mut p, SOLANA_CHAIN);
    push_all(&mut p, recipient.as_slice());
    push_be_u16(&mut p, recipient_chain);
    push_u256(&mut p, norm_fee);
    assert(p@ =~= transfer_payload(
        norm_amount,
        mint_key@,
        SOLANA_CHAIN,
        recipient@,
        recipient_chain,
        norm_fee,
    ));
    match post_token_bridge_message(sequences, p, nonce, timestamp) {
        Ok((seq, hash)) => Ok((deposited, seq, hash)),
        Err(e) => Err(e),
    }
}

/// Sends wrapped tokens back toward their chain with a payload for the
/// redeemer. The sender recorded is the program when one sends through its
/// sender authority. Wrapped amounts already have at most eight decimals and
/// are sent as they are; the caller burns `amount`.
pub fn transfer_tokens_with_payload_wrapped(
    sequences: &mut EmitterSequences,
    wrapped_asset: &WrappedAsset,
    sender_authority: &[u8; 32],
    cpi_program_id: Option<[u8; 32]>,
    amount: u64,
    redeemer: [u8; 32],
    redeemer_chain: u16,
    payload: &[u8],
    nonce: u32,
    timestamp: u32,
) -> (r: Result<(u64, [u8; 32]), BridgeError>)
    ensures
        match cpi_program_id {
            None => published_as(
                r,
                old(sequences)@,
                final(sequences)@,
                transfer_with_message_payload(
                    amount,
                    wrapped_asset.token_address@,
                    wrapped_asset.token_chain,
                    redeemer@,
                    redeemer_chain,
                    sender_authority@,
                    payload@,
                ),
                nonce,
                timestamp,
            ),
            Some(program_id) => if program_address_of(PROGRAM_SENDER_SEED_PREFIX@, program_id@) == Some(
                sender_authority@,
            ) {
                published_as(
                    r,
                    old(sequences)@,
                    final(sequences)@,
                    transfer_with_message_payload(
                        amount,
                        wrapped_asset.token_address@,
                        wrapped_asset.token_chain,
                        redeemer@,
                        redeemer_chain,
                        program_id@,
                        payload@,
                    ),
                    nonce,
                    timestamp,
                )
            } else {
                r == Err::<(u64, [u8; 32]), BridgeError>(BridgeError::InvalidSenderAuthority)
                    && final(sequences)@ == old(sequences)@
            },
        },
{
    let sender = match new_sender_address(sender_authority, cpi_program_id) {
        Ok(s) => s,
        Err(e) => {
            return Err(e);
        },
    };
    let mut p: Vec<u8> = Vec::new();
    p.push(3u8);
    push_u256(&mut p, amount);
    push_all(&mut p, wrapped_asset.token_address.as_slice());
    push_be_u16(&mut p, wrapped_asset.token_chain);
    push_all(&mut p, redeemer.as_slice());
    push_be_u16(&mut p, redeemer_chain);
    push_all(&mut p, sender.as_slice());
    push_all(&mut p, payload);
    assert(p@ =~= transfer_with_message_payload(
        amount,
        wrapped_asset.token_address@,
        wrapped_asset.token_chain,
        redeemer@,
        redeemer_chain,
        sender@,
        payload@,
    ));
    post_token_bridge_message(sequences, p, nonce, timestamp)
}

/// Whether `vaa` was sent by the token bridge registered for its chain.
pub open spec fn from_registered_emitter(
    emitters: (Seq<crate::token_bridge::RegisteredEmitter>, Seq<crate::token_bridge::RegisteredEmitter>),
    vaa: PostedVaaV1Bytes,
) -> bool {
    has_pair(emitters.0, vaa.meta.emitter_chain, vaa.meta.emitter_address@)
}

fn require_registered_emitter(emitters: &RegisteredEmitters, vaa: &PostedVaaV1Bytes) -> (r: bool)
    requires
        emitters.wf(),
    ensures
        r == from_registered_emitter(emitters@, *vaa),
{
    match emitters.get(vaa.meta.emitter_chain) {
        Some(a) => {
            bytes_eq(a.as_slice(), vaa.meta.emitter_address.as_slice())
        },
        None => false,
    }
}

/// The error, if any, of reading a token-bridge message of kind `kind` and
/// length at least `min_len` (exactly `min_len` when `exact`).
pub open spec fn token_message_error(p: Seq<u8>, kind: u8, min_len: int, exact: bool) -> Option<
    BridgeError,
> {
    if p.len() == 0 || p[0] < 1 || p[0] > 3 {
        Some(BridgeError::InvalidTokenBridgePayload)
    } else if p[0] != kind {
        Some(BridgeError::InvalidTokenBridgeVaa)
    } else if p.len() < min_len || (exact && p.len() != min_len) {
        Some(BridgeError::InvalidTokenBridgePayload)
    } else {
        None
    }
}

fn check_token_message(p: &[u8], kind: u8, min_len: usize, exact: bool) -> (r: Option<BridgeError>)
    ensures
        r == token_message_error(p@, kind, min_len as int, exact),
{
    let len: usize = p.len();
    if len == 0 || p[0] < 1 || p[0] > 3 {
        return Some(BridgeError::InvalidTokenBridgePayload);
    }
    if p[0] != kind {
        return Some(BridgeError::InvalidTokenBridgeVaa);
    }
    if len < min_len || (exact && len != min_len) {
        return Some(BridgeError::InvalidTokenBridgePayload);
    }
    None
}

/// The error, if any, that refuses redeeming a transfer with payload of a
/// wrapped token.
pub open spec fn complete_wrapped_error(
    claims: Seq<Claim>,
    emitters: (Seq<crate::token_bridge::RegisteredEmitter>, Seq<crate::token_bridge::RegisteredEmitter>),
    vaa: PostedVaaV1Bytes,
    wrapped_asset: WrappedAsset,
    redeemer_authority: Seq<u8>,
) -> Option<BridgeError> {
    let p = vaa.payload@;
    if !from_registered_emitter(emitters, vaa) {
        Some(BridgeError::InvalidTokenBridgeEmitter)
    } else if token_message_error(p, 3, 133, false) is Some {
        token_message_error(p, 3, 133, false)
    } else if read_be_u16(p, 99) != SOLANA_CHAIN {
        Some(BridgeError::RedeemerChainNotSolana)
    } else if p.subrange(67, 99) != redeemer_authority {
        Some(BridgeError::InvalidProgramRedeemer)
    } else if read_be_u16(p, 65) == SOLANA_CHAIN {
        Some(BridgeError::NativeAsset)
    } else if read_be_u16(p, 65) != wrapped_asset.token_chain || p.subrange(33, 65)
        != wrapped_asset.token_address@ {
        Some(BridgeError::InvalidMint)
    } else if vaa_claimed(claims, vaa) {
        Some(BridgeError::AlreadyClaimed)
    } else if exists|j: int| 1 <= j < 25 && p[j] != 0 {
        Some(BridgeError::NumericOverflow)
    } else {
        None
    }
}

/// Redeems a transfer with payload of a wrapped token: checks the message
/// against the registered emitter, the redeemer and the wrapped asset,
/// consumes it, and returns the amount the caller mints to the redeemer.
pub fn complete_transfer_with_payload_wrapped(
    claims: &mut ClaimLedger,
    emitters: &RegisteredEmitters,
    posted: &PostedVaaStore,
    hash: &[u8; 32],
    wrapped_asset: &WrappedAsset,
    redeemer_authority: &[u8; 32],
) -> (r: Result<u64, BridgeError>)
    requires
        posted.wf(),
        emitters.wf(),
    ensures
        !holds_hash(posted@, hash@) ==> r == Err::<u64, BridgeError>(BridgeError::PostedVaaNotFound) && final(claims)@ == old(claims)@,
        holds_hash(posted@, hash@) ==> match complete_wrapped_error(old(claims)@, emitters@, stored_with(posted@, hash@), *wrapped_asset, redeemer_authority@) {
            Some(e) => r == Err::<u64, BridgeError>(e) && final(claims)@ == old(claims)@,
            None => r == Ok::<u64, BridgeError>(read_be_u64(stored_with(posted@, hash@).payload@, 25)) && final(claims)@
                == consumed(old(claims)@, stored_with(posted@, hash@)),
        },
{
    let vaa = match posted.get(hash) {
        Some(v) => v,
        None => {
            return Err(BridgeError::PostedVaaNotFound);
        },
    };
    if !require_registered_emitter(emitters, vaa) {
        return Err(BridgeError::InvalidTokenBridgeEmitter);
    }
    let p = vaa.payload.as_slice();
    match check_token_message(p, 3, 133, false) {
        Some(e) => {
            return Err(e);
        },
        None => {},
    }
    if read_u16_be(p, 99) != SOLANA_CHAIN {
        return Err(BridgeError::RedeemerChainNotSolana);
    }
    let redeemer = read_array32(p, 67);
    if !bytes_eq(redeemer.as_slice(), redeemer_authority.as_slice()) {
        return Err(BridgeError::InvalidProgramRedeemer);
    }
    let token_chain = read_u16_be(p, 65);
    if token_chain == SOLANA_CHAIN {
        return Err(BridgeError::NativeAsset);
    }
    let token_address = read_array32(p, 33);
    if token_chain != wrapped_asset.token_chain || !bytes_eq(
        token_address.as_slice(),
        wrapped_asset.token_address.as_slice(),
    ) {
        return Err(BridgeError::InvalidMint);
    }
    if claims.is_claimed(vaa.meta.emitter_chain, &vaa.meta.emitter_address, vaa.meta.sequence) {
        return Err(BridgeError::AlreadyClaimed);
    }
    if !all_zero(p, 1, 25) {
        return Err(BridgeError::NumericOverflow);
    }
    crate::governance::consume(claims, vaa);
    Ok(read_u64_be(p, 25))
}

/// `s` without its trailing zero bytes.
pub open spec fn trim_zeros(s: Seq<u8>) -> Seq<u8>
    decreases s.len(),
{
    if s.len() > 0 && s.last() == 0 {
        trim_zeros(s.drop_last())
    } else {
        s
    }
}

fn trimmed_range(p: &[u8], from: usize, to: usize, max: usize) -> (r: Vec<u8>)
    requires
        from <= to <= p@.len(),
    ensures
        r@ == {
            let t = trim_zeros(p@.subrange(from as int, to as int));
            if t.len() > max {
                t.subrange(0, max as int)
            } else {
                t
            }
        },
{
    let mut end: usize = to;
    while end > from && p[end - 1] == 0
        invariant
            from <= end <= to <= p@.len(),
            trim_zeros(p@.subrange(from as int, to as int)) == trim_zeros(
                p@.subrange(from as int, end as int),
            ),
        decreases end,
    {
        assert(p@.subrange(from as int, end as int).drop_last() =~= p@.subrange(
            from as int,
            end - 1,
        ));
        end = end - 1;
    }
    let cut: usize = if end - from > max {
        from + max
    } else {
        end
    };
    assert(p@.subrange(from as int, end as int) == trim_zeros(p@.subrange(from as int, end as int)));
    let r = copy_range(p, from, cut);
    assert(r@ =~= {
        let t = trim_zeros(p@.subrange(from as int, to as int));
        if t.len() > max {
            t.subrange(0, max as int)
        } else {
            t
        }
    });
    r
}

/// What redeeming an attestation asks of the caller.
pub enum WrappedMetadataAction {
    /// Create the wrapped mint with `mint_decimals` places, its asset record
    /// and its metadata.
    Create { asset: WrappedAsset, mint_decimals: u8, symbol: Vec<u8>, name: Vec<u8> },
    /// Replace the metadata's symbol and name.
    Update { symbol: Vec<u8>, name: Vec<u8> },
    /// The metadata is already current.
    Unchanged,
}

/// The symbol kept from an attestation: its bytes without trailing zeros, cut
/// to the longest symbol that metadata keeps.
pub open spec fn attested_symbol(p: Seq<u8>) -> Seq<u8> {
    let t = trim_zeros(p.subrange(36, 68));
    if t.len() > MAX_SYMBOL_LENGTH {
        t.subrange(0, MAX_SYMBOL_LENGTH as int)
    } else {
        t
    }
}

/// The name kept from an attestation: its bytes without trailing zeros.
pub open spec fn attested_name(p: Seq<u8>) -> Seq<u8> {
    let t = trim_zeros(p.subrange(68, 100));
    if t.len() > 32 {
        t.subrange(0, 32)
    } else {
        t
    }
}

/// The error, if any, that refuses redeeming an attestation.
pub open spec fn attestation_error(
    claims: Seq<Claim>,
    emitters: (Seq<crate::token_bridge::RegisteredEmitter>, Seq<crate::token_bridge::RegisteredEmitter>),
    vaa: PostedVaaV1Bytes,
) -> Option<BridgeError> {
    let p = vaa.payload@;
    if !from_registered_emitter(emitters, vaa) {
        Some(BridgeError::InvalidTokenBridgeEmitter)
    } else if token_message_error(p, 2, 100, true) is Some {
        token_message_error(p, 2, 100, true)
    } else if read_be_u16(p, 33) == SOLANA_CHAIN {
        Some(BridgeError::NativeAsset)
    } else if vaa_claimed(claims, vaa) {
        Some(BridgeError::AlreadyClaimed)
    } else {
        None
    }
}

/// Decimals of the wrapped mint for an attestation payload.
pub fn try_attestation_decimals(p: &[u8]) -> (r: Result<u8, BridgeError>)
    ensures
        match token_message_error(p@, 2, 100, true) {
            Some(e) => r == Err::<u8, BridgeError>(e),
            None => r == Ok::<u8, BridgeError>(
                if p@[35] > MAX_DECIMALS {
                    MAX_DECIMALS
                } else {
                    p@[35]
                },
            ),
        },
{
    match check_token_message(p, 2, 100, true) {
        Some(e) => Err(e),
        None => Ok(crate::token::cap_decimals(p[35])),
    }
}

/// Chain of the attested token, which must be another chain.
pub fn try_attestation_token_chain(p: &[u8]) -> (r: Result<u16, BridgeError>)
    ensures
        match token_message_error(p@, 2, 100, true) {
            Some(e) => r == Err::<u16, BridgeError>(e),
            None => if read_be_u16(p@, 33) == SOLANA_CHAIN {
                r == Err::<u16, BridgeError>(BridgeError::NativeAsset)
            } else {
                r == Ok::<u16, BridgeError>(read_be_u16(p@, 33))
            },
        },
{
    match check_token_message(p, 2, 100, true) {
        Some(e) => Err(e),
        None => {
            let chain = read_u16_be(p, 33);
            if chain == SOLANA_CHAIN {
                Err(BridgeError::NativeAsset)
            } else {
                Ok(chain)
            }
        },
    }
}

/// Address of the attested token on its chain.
pub fn try_attestation_token_address(p: &[u8]) -> (r: Result<[u8; 32], BridgeError>)
    ensures
        match token_message_error(p@, 2, 100, true) {
            Some(e) => r == Err::<[u8; 32], BridgeError>(e),
            None => r matches Ok(a) && a@ == p@.subrange(1, 33),
        },
{
    match check_token_message(p, 2, 100, true) {
        Some(e) => Err(e),
        None => Ok(read_array32(p, 1)),
    }
}

/// Redeems an attestation of a foreign token. `existing` holds the symbol and
/// name of the wrapped token's metadata when it exists. Consumes the message
/// and says whether the wrapped token is to be created, its metadata updated,
/// or nothing changed.
pub fn create_or_update_wrapped(
    claims: &mut ClaimLedger,
    emitters: &RegisteredEmitters,
    posted: &PostedVaaStore,
    hash: &[u8; 32],
    existing: Option<(&[u8], &[u8])>,
) -> (r: Result<WrappedMetadataAction, BridgeError>)
    requires
        posted.wf(),
        emitters.wf(),
    ensures
        !holds_hash(posted@, hash@) ==> r == Err::<WrappedMetadataAction, BridgeError>(BridgeError::PostedVaaNotFound) && final(claims)@ == old(claims)@,
        holds_hash(posted@, hash@) ==> match attestation_error(old(claims)@, emitters@, stored_with(posted@, hash@)) {
            Some(e) => r == Err::<WrappedMetadataAction, BridgeError>(e) && final(claims)@ == old(claims)@,
            None => r is Ok && final(claims)@ == consumed(old(claims)@, stored_with(posted@, hash@)),
        },
        r matches Ok(action) ==> {
            let p = stored_with(posted@, hash@).payload@;
            let symbol = attested_symbol(p);
            let name = attested_name(p);
            match existing {
                None => action matches WrappedMetadataAction::Create { asset, mint_decimals, symbol: s, name: n }
                    && asset.token_chain == read_be_u16(p, 33) && asset.token_address@ == p.subrange(1, 33)
                    && asset.native_decimals == p[35] && mint_decimals == (if p[35] > MAX_DECIMALS {
                    MAX_DECIMALS
                } else {
                    p[35]
                }) && s@ == symbol && n@ == name,
                Some((old_symbol, old_name)) => if old_symbol@ == symbol && old_name@ == name {
                    action is Unchanged
                } else {
                    action matches WrappedMetadataAction::Update { symbol: s, name: n } && s@ == symbol
                        && n@ == name
                },
            }
        },
{
    let vaa = match posted.get(hash) {
        Some(v) => v,
        None => {
            return Err(BridgeError::PostedVaaNotFound);
        },
    };
    if !require_registered_emitter(emitters, vaa) {
        return Err(BridgeError::InvalidTokenBridgeEmitter);
    }
    let p = vaa.payload.as_slice();
    let token_chain = match try_attestation_token_chain(p) {
        Ok(c) => c,
        Err(e) => {
            return Err(e);
        },
    };
    if claims.is_claimed(vaa.meta.emitter_chain, &vaa.meta.emitter_address, vaa.meta.sequence) {
        return Err(BridgeError::AlreadyClaimed);
    }
    crate::governance::consume(claims, vaa);
    let symbol = trimmed_range(p, 36, 68, MAX_SYMBOL_LENGTH);
    let name = trimmed_range(p, 68, 100, 32);
    match existing {
        None => {
            let token_address = match try_attestation_token_address(p) {
                Ok(a) => a,
                Err(e) => {
                    return Err(e);
                },
            };
            let mint_decimals = match try_attestation_decimals(p) {
                Ok(d) => d,
                Err(e) => {
                    return Err(e);
                },
            };
            let asset = WrappedAsset { token_chain, token_address, native_decimals: p[35] };
            Ok(WrappedMetadataAction::Create { asset, mint_decimals, symbol, name })
        },
        Some((old_symbol, old_name)) => {
            if bytes_eq(old_symbol, symbol.as_slice()) && bytes_eq(old_name, name.as_slice()) {
                Ok(WrappedMetadataAction::Unchanged)
            } else {
                Ok(WrappedMetadataAction::Update { symbol, name })
            }
        },
    }
}

} // verus!
