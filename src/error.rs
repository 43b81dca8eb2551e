use vstd::prelude::*;

verus! {

/// Every way an operation of the bridge can be refused.
#[derive(Debug, Clone, Copy, PartialEq, Eq, Structural)]
pub enum BridgeError {
    /// The bytes do not follow the wire format.
    MalformedVaa,
    /// A signature does not recover to the guardian it names.
    InvalidSignature,
    /// Guardian indices are not strictly increasing or name no guardian.
    InvalidGuardianIndex,
    /// Fewer valid signatures than the quorum.
    QuorumNotMet,
    /// The guardian set is no longer active.
    GuardianSetExpired,
    /// The guardian set is not the one the operation asks for.
    GuardianSetMismatch,
    /// No guardian set has the requested index.
    GuardianSetNotFound,
    /// A new guardian set does not follow the current one.
    InvalidGuardianSetIndex,
    /// A new guardian set has no keys.
    EmptyGuardianSet,
    /// The governance payload names another action or has non-zero reserved bytes.
    InvalidGovernanceAction,
    /// The governance payload is too short or names another module.
    InvalidGovernanceVaa,
    /// The governance message did not come from the governance emitter.
    InvalidGovernanceEmitter,
    /// The governance decree targets another chain.
    GovernanceForAnotherChain,
    /// The message was already consumed.
    AlreadyClaimed,
    /// A record with the same message hash exists.
    AlreadyPosted,
    /// No posted record has the given message hash.
    PostedVaaNotFound,
    /// The signature set does not belong to this message.
    InvalidSignatureSet,
    /// An account that the operation needs was not supplied.
    AccountNotEnoughKeys,
    /// A write reaches past the end of the draft payload.
    DataOverflow,
    /// The caller is not the draft's emitter authority.
    AuthorityMismatch,
    /// The draft is not in a state that allows the operation.
    MessageAlreadyPublished,
    /// An instruction argument is out of range or empty.
    InvalidInstructionArgument,
    /// An amount or counter does not fit its width.
    NumericOverflow,
    /// A foreign chain is already registered.
    EmitterAlreadyRegistered,
    /// The account is not owned by the token program.
    InvalidTokenProgram,
    /// The mint account has the wrong size.
    AccountDidNotDeserialize,
    /// The mint account is not initialized.
    AccountNotInitialized,
    /// The mint authority differs from the expected one.
    ConstraintMintMintAuthority,
    /// The mint is controlled by the bridge, so its asset came from another chain.
    WrappedAsset,
    /// The sender authority is not the program's sender address.
    InvalidSenderAuthority,
    /// The relayer fee exceeds the transfer amount.
    InvalidRelayerFee,
    /// The payload is not a token-bridge message.
    InvalidTokenBridgePayload,
    /// The token-bridge message is not of the kind the operation needs.
    InvalidTokenBridgeVaa,
    /// The message was not sent by the token bridge registered for its chain.
    InvalidTokenBridgeEmitter,
    /// The transfer is meant for another chain.
    RedeemerChainNotSolana,
    /// The redeemer is not the one named by the transfer.
    InvalidProgramRedeemer,
    /// The token originated on this chain, where no wrapped asset exists.
    NativeAsset,
    /// The wrapped asset does not match the token of the message.
    InvalidMint,
    /// The bridge has no emitter address.
    InvalidEmitter,
}

} // verus!
