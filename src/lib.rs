//! Guardian-attested cross-chain messaging: guardian sets and quorum
//! verification, message hashing and posting, replay protection, outbound
//! message drafting, governance decrees and token-bridge helpers.
pub mod bytes;
pub mod claim;
pub mod crypto;
pub mod error;
pub mod governance;
pub mod guardian_set;
pub mod message;
pub mod posted_vaa;
pub mod quorum;
pub mod token;
pub mod token_bridge;
pub mod token_transfer;
pub mod vaa;
