//! Token helpers of the token bridge: a read-only view of token mint
//! accounts, native-mint checks, sender addresses and amount scaling.
use vstd::prelude::*;
use vstd::utf8::encode_utf8;

use crate::bytes::{bytes_eq, read_array32, read_le_u64, read_u64_le};
use crate::error::BridgeError;

verus! {

/// Size of a token mint account.
pub const MINT_LEN: usize = 82;

/// Most decimals that amounts carried across chains keep.
pub const MAX_DECIMALS: u8 = 8;

/// Address of the token program, which owns every mint account.
pub const TOKEN_PROGRAM_ID: [u8; 32] = [
    6, 221, 246, 225, 215, 101, 161, 147, 217, 203, 225, 70, 206, 235, 121, 172, 28, 180, 133, 237,
    95, 91, 55, 145, 58, 140, 245, 133, 126, 255, 0, 169,
];

/// Address of the token bridge program.
pub const TOKEN_BRIDGE_PROGRAM_ID: [u8; 32] = [
    14, 10, 88, 158, 100, 136, 20, 122, 148, 220, 250, 89, 43, 144, 253, 212, 17, 82, 187, 44, 167,
    123, 246, 1, 103, 88, 166, 244, 223, 157, 33, 180,
];

/// Seed of the token bridge's mint authority.
pub const MINT_AUTHORITY_SEED_PREFIX: [u8; 11] = [
    109, 105, 110, 116, 95, 115, 105, 103, 110, 101, 114,
];

/// Seed of a program's sender authority.
pub const PROGRAM_SENDER_SEED_PREFIX: [u8; 6] = [115, 101, 110, 100, 101, 114];

/// The program-derived address of `program_id` for the single seed `seed`,
/// when one exists.
pub uninterp spec fn program_address_of(seed: Seq<u8>, program_id: Seq<u8>) -> Option<Seq<u8>>;

/// Relies on `solana_program::pubkey::Pubkey::try_find_program_address`: the
/// first off-curve address derived from `seed`, a bump byte and `program_id`,
/// or `None` when no bump gives one.
#[verifier::external_body]
pub(crate) fn find_program_address(seed: &[u8], program_id: &[u8; 32]) -> (r: Option<[u8; 32]>)
    ensures
        match program_address_of(seed@, program_id@) {
            Some(a) => r is Some && r->0@ == a,
            None => r is None,
        },
{
    solana_program::pubkey::Pubkey::try_find_program_address(
        &[seed],
        &solana_program::pubkey::Pubkey::new_from_array(*program_id),
    ).map(|(k, _)| k.to_bytes())
}

/// An optional key stored as a 4-byte tag (all zero for none) and 32 bytes.
pub open spec fn optional_key_at(s: Seq<u8>, at: int) -> Option<Seq<u8>> {
    if s[at] == 0 && s[at + 1] == 0 && s[at + 2] == 0 && s[at + 3] == 0 {
        None
    } else {
        Some(s.subrange(at + 4, at + 36))
    }
}

/// The reason, if any, that account data owned by `owner` is not an
/// initialized mint of the token program.
pub open spec fn mint_parse_error(owner: Seq<u8>, data: Seq<u8>) -> Option<BridgeError> {
    if owner != TOKEN_PROGRAM_ID@ {
        Some(BridgeError::InvalidTokenProgram)
    } else if data.len() != MINT_LEN {
        Some(BridgeError::AccountDidNotDeserialize)
    } else if data[45] != 1 {
        Some(BridgeError::AccountNotInitialized)
    } else {
        None
    }
}

/// A read-only view of a token mint account.
pub struct Mint {
    data: Vec<u8>,
}

impl View for Mint {
    type V = Seq<u8>;

    closed spec fn view(&self) -> Seq<u8> {
        self.data@
    }
}

fn optional_key(s: &[u8], at: usize) -> (r: Option<[u8; 32]>)
    requires
        at + 36 <= s@.len(),
    ensures
        match optional_key_at(s@, at as int) {
            Some(k) => r is Some && r->0@ == k,
            None => r is None,
        },
{
    if s[at] == 0 && s[at + 1] == 0 && s[at + 2] == 0 && s[at + 3] == 0 {
        None
    } else {
        Some(read_array32(s, at + 4))
    }
}

impl Mint {
    /// Authority that may mint new tokens; none when the supply is fixed.
    pub fn mint_authority(&self) -> (r: Option<[u8; 32]>)
        requires
            self@.len() >= MINT_LEN,
        ensures
            match optional_key_at(self@, 0) {
                Some(k) => r is Some && r->0@ == k,
                None => r is None,
            },
    {
        optional_key(self.data.as_slice(), 0)
    }

    /// Total supply of tokens.
    pub fn supply(&self) -> (r: u64)
        requires
            self@.len() >= MINT_LEN,
        ensures
            r == read_le_u64(self@, 36),
    {
        read_u64_le(self.data.as_slice(), 36)
    }

    /// Number of base-10 digits to the right of the decimal point.
    pub fn decimals(&self) -> (r: u8)
        requires
            self@.len() >= MINT_LEN,
        ensures
            r == self@[44],
    {
        self.data[44]
    }

    /// Whether the mint was initialized.
    pub fn is_initialized(&self) -> (r: bool)
        requires
            self@.len() >= MINT_LEN,
        ensures
            r == (self@[45] == 1),
    {
        self.data[45] == 1
    }

    /// Authority that may freeze token accounts, if any.
    pub fn freeze_authority(&self) -> (r: Option<[u8; 32]>)
        requires
            self@.len() >= MINT_LEN,
        ensures
            match optional_key_at(self@, 46) {
                Some(k) => r is Some && r->0@ == k,
                None => r is None,
            },
    {
        optional_key(self.data.as_slice(), 46)
    }

    /// Reads a mint account owned by `owner`: it must belong to the token
    /// program, have the size of a mint and be initialized.
    pub fn parse(owner: &[u8; 32], data: Vec<u8>) -> (r: Result<Mint, BridgeError>)
        ensures
            match mint_parse_error(owner@, data@) {
                Some(e) => r == Err::<Mint, BridgeError>(e),
                None => r matches Ok(m) && m@ == data@,
            },
    {
        let id = TOKEN_PROGRAM_ID;
        if !bytes_eq(owner.as_slice(), id.as_slice()) {
            return Err(BridgeError::InvalidTokenProgram);
        }
        if data.len() != MINT_LEN {
            return Err(BridgeError::AccountDidNotDeserialize);
        }
        let mint = Mint { data };
        if !mint.is_initialized() {
            return Err(BridgeError::AccountNotInitialized);
        }
        Ok(mint)
    }

    /// Wraps account data without any check.
    pub fn parse_unchecked(data: Vec<u8>) -> (r: Mint)
        ensures
            r@ == data@,
    {
        Mint { data }
    }

    /// Checks that the mint account has exactly the expected mint authority
    /// (or none, when none is expected).
    pub fn require_mint_authority(owner: &[u8; 32], data: Vec<u8>, mint_authority: Option<&[u8; 32]>) -> (r:
        Result<(), BridgeError>)
        ensures
            mint_parse_error(owner@, data@) matches Some(e) ==> r == Err::<(), BridgeError>(e),
            owner@ == TOKEN_PROGRAM_ID@ && data@.len() == MINT_LEN && data@[45] == 1 ==> (r is Ok
                <==> match (optional_key_at(data@, 0), mint_authority) {
                (Some(actual), Some(expected)) => actual == expected@,
                (None, None) => true,
                _ => false,
            }),
            owner@ == TOKEN_PROGRAM_ID@ && data@.len() == MINT_LEN && data@[45] == 1 && r is Err ==> r
                == Err::<(), BridgeError>(BridgeError::ConstraintMintMintAuthority),
    {
        let mint = match Self::parse(owner, data) {
            Ok(m) => m,
            Err(e) => {
                return Err(e);
            },
        };
        match mint.mint_authority() {
            Some(actual) => match mint_authority {
                Some(expected) => if bytes_eq(actual.as_slice(), expected.as_slice()) {
                    Ok(())
                } else {
                    Err(BridgeError::ConstraintMintMintAuthority)
                },
                None => Err(BridgeError::ConstraintMintMintAuthority),
            },
            None => match mint_authority {
                Some(_) => Err(BridgeError::ConstraintMintMintAuthority),
                None => Ok(()),
            },
        }
    }
}

/// Whether a mint with the given authority is native to this chain: its
/// authority, if any, is not the token bridge's mint authority.
pub open spec fn native_authority(authority: Option<Seq<u8>>) -> bool {
    match authority {
        None => true,
        Some(a) => program_address_of(MINT_AUTHORITY_SEED_PREFIX@, TOKEN_BRIDGE_PROGRAM_ID@) != Some(
            a,
        ),
    }
}

/// Whether the mint was created on this chain rather than by the bridge.
pub fn is_native_mint(mint: &Mint) -> (r: bool)
    requires
        mint@.len() >= MINT_LEN,
    ensures
        r == native_authority(optional_key_at(mint@, 0)),
{
    match mint.mint_authority() {
        Some(authority) => {
            let seed = MINT_AUTHORITY_SEED_PREFIX;
            let program = TOKEN_BRIDGE_PROGRAM_ID;
            match find_program_address(seed.as_slice(), &program) {
                Some(bridge_authority) => !bytes_eq(authority.as_slice(), bridge_authority.as_slice()),
                None => true,
            }
        },
        None => true,
    }
}

/// Checks that an account is a mint of the token program that the bridge does
/// not control.
pub fn require_native_mint(owner: &[u8; 32], data: Vec<u8>) -> (r: Result<(), BridgeError>)
    ensures
        mint_parse_error(owner@, data@) matches Some(e) ==> r == Err::<(), BridgeError>(e),
        mint_parse_error(owner@, data@) is None ==> if native_authority(
            optional_key_at(data@, 0),
        ) {
            r is Ok
        } else {
            r == Err::<(), BridgeError>(BridgeError::WrappedAsset)
        },
{
    let mint = match Mint::parse(owner, data) {
        Ok(m) => m,
        Err(e) => {
            return Err(e);
        },
    };
    if !is_native_mint(&mint) {
        return Err(BridgeError::WrappedAsset);
    }
    Ok(())
}

/// The address recorded as the sender of a transfer: the program id when a
/// program sends through its sender authority, else the signer itself.
pub fn new_sender_address(sender_authority: &[u8; 32], cpi_program_id: Option<[u8; 32]>) -> (r: Result<
    [u8; 32],
    BridgeError,
>)
    ensures
        match cpi_program_id {
            None => r == Ok::<[u8; 32], BridgeError>(*sender_authority),
            Some(program_id) => if program_address_of(PROGRAM_SENDER_SEED_PREFIX@, program_id@) == Some(
                sender_authority@,
            ) {
                r == Ok::<[u8; 32], BridgeError>(program_id)
            } else {
                r == Err::<[u8; 32], BridgeError>(BridgeError::InvalidSenderAuthority)
            },
        },
{
    match cpi_program_id {
        Some(program_id) => {
            let seed = PROGRAM_SENDER_SEED_PREFIX;
            match find_program_address(seed.as_slice(), &program_id) {
                Some(expected) => if bytes_eq(sender_authority.as_slice(), expected.as_slice()) {
                    Ok(program_id)
                } else {
                    Err(BridgeError::InvalidSenderAuthority)
                },
                None => Err(BridgeError::InvalidSenderAuthority),
            }
        },
        None => Ok(*sender_authority),
    }
}

/// Ten to the power `n`.
pub open spec fn pow10(n: nat) -> nat
    decreases n,
{
    if n == 0 {
        1
    } else {
        10 * pow10((n - 1) as nat)
    }
}

fn exec_pow10(n: u8) -> (r: u64)
    requires
        n <= 19,
    ensures
        r == pow10(n as nat),
        r >= 1,
{
    proof {
        lemma_pow10_monotone(0, 19);
        lemma_pow10_positive(n as nat);
    }
    let mut r: u64 = 1;
    let mut i: u8 = 0;
    while i < n
        invariant
            i <= n <= 19,
            r == pow10(i as nat),
            pow10(i as nat) <= pow10(19),
        decreases n - i,
    {
        proof {
            lemma_pow10_monotone((i + 1) as nat, 19);
        }
        r = r * 10;
        i = i + 1;
    }
    r
}

proof fn lemma_pow10_positive(n: nat)
    ensures
        pow10(n) >= 1,
    decreases n,
{
    if n > 0 {
        lemma_pow10_positive((n - 1) as nat);
    }
}

proof fn lemma_pow10_monotone(a: nat, b: nat)
    requires
        a <= b,
    ensures
        pow10(a) <= pow10(b),
        pow10(19) == 10000000000000000000,
    decreases b,
{
    reveal_with_fuel(pow10, 20);
    if a < b {
        lemma_pow10_monotone(a, (b - 1) as nat);
    }
}

/// `amount` with the digits beyond `MAX_DECIMALS` places set to zero.
pub open spec fn truncated(amount: u64, decimals: u8) -> int {
    if decimals <= MAX_DECIMALS {
        amount as int
    } else {
        let d = pow10((decimals - MAX_DECIMALS) as nat) as int;
        (amount as int / d) * d
    }
}

/// `amount` expressed with at most `MAX_DECIMALS` places.
pub open spec fn normalized(amount: u64, decimals: u8) -> int {
    if decimals <= MAX_DECIMALS {
        amount as int
    } else {
        amount as int / (pow10((decimals - MAX_DECIMALS) as nat) as int)
    }
}

/// Decimals kept by a wrapped token: at most `MAX_DECIMALS`.
pub fn cap_decimals(decimals: u8) -> (r: u8)
    ensures
        r == if decimals > MAX_DECIMALS {
            MAX_DECIMALS
        } else {
            decimals
        },
{
    if decimals > MAX_DECIMALS {
        MAX_DECIMALS
    } else {
        decimals
    }
}

/// Scales an amount of a token with `decimals` places down to at most
/// `MAX_DECIMALS` places.
pub fn normalize_amount(amount: u64, decimals: u8) -> (r: u64)
    ensures
        r == normalized(amount, decimals),
{
    if decimals <= MAX_DECIMALS {
        return amount;
    }
    let diff: u8 = decimals - MAX_DECIMALS;
    if diff > 19 {
        proof {
            lemma_pow10_monotone(20, diff as nat);
            reveal_with_fuel(pow10, 21);
            assert(amount as int / (pow10(diff as nat) as int) == 0) by (nonlinear_arith)
                requires
                    pow10(diff as nat) >= pow10(20),
                    pow10(20) == 100000000000000000000,
            ;
        }
        return 0;
    }
    amount / exec_pow10(diff)
}

/// Amount truncation for encoded transfer amounts, given a token's decimals.
pub trait TruncateAmount {
    spec fn spec_mint_decimals(&self) -> u8;

    fn mint_decimals(&self) -> (r: u8)
        ensures
            r == self.spec_mint_decimals(),
    ;

    /// Clears the digits that the transfer encoding cannot carry.
    fn truncate_amount(&self, amount: u64) -> (r: u64)
        requires
            self.spec_mint_decimals() <= MAX_DECIMALS + 19,
        ensures
            r == truncated(amount, self.spec_mint_decimals()),
    ;
}

/// `amount` with the digits beyond `MAX_DECIMALS` places of a token with
/// `decimals` places set to zero.
pub fn truncate_amount(amount: u64, decimals: u8) -> (r: u64)
    requires
        decimals <= MAX_DECIMALS + 19,
    ensures
        r == truncated(amount, decimals),
{
    let diff: u8 = decimals.saturating_sub(MAX_DECIMALS);
    if diff == 0 {
        amount
    } else {
        let divisor = exec_pow10(diff);
        let q = amount / divisor;
        assert(q * divisor <= amount) by (nonlinear_arith)
            requires
                q == amount / divisor,
                divisor > 0,
        ;
        q * divisor
    }
}

impl TruncateAmount for Mint {
    open spec fn spec_mint_decimals(&self) -> u8 {
        if self@.len() > 44 {
            self@[44]
        } else {
            0
        }
    }

    fn mint_decimals(&self) -> (r: u8) {
        if self.data.len() > 44 {
            self.data[44]
        } else {
            0
        }
    }

    fn truncate_amount(&self, amount: u64) -> (r: u64) {
        truncate_amount(amount, self.mint_decimals())
    }
}

/// The first 32 of `bytes`, padded with zeros.
pub open spec fn fixed32(bytes: Seq<u8>) -> Seq<u8> {
    Seq::new(32, |i: int| if i < bytes.len() { bytes[i] } else { 0u8 })
}

/// The first 32 bytes of a string's UTF-8 encoding, zero-padded.
pub fn string_to_fixed32(s: &String) -> (r: [u8; 32])
    ensures
        r@ == fixed32(encode_utf8(s@)),
{
    let b = s.as_str().as_bytes();
    let mut r: [u8; 32] = [0u8; 32];
    let n: usize = if b.len() > 32 {
        32
    } else {
        b.len()
    };
    let mut i: usize = 0;
    while i < n
        invariant
            n <= 32,
            n <= b@.len(),
            i <= n,
            b@ == encode_utf8(s@),
            r@.len() == 32,
            forall|j: int| 0 <= j < i ==> r@[j] == b@[j],
            forall|j: int| i <= j < 32 ==> r@[j] == 0u8,
        decreases n - i,
    {
        r[i] = b[i];
        i = i + 1;
    }
    assert(r@ =~= fixed32(b@));
    r
}

} // verus!
