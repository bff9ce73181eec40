use vstd::prelude::*;

verus! {

/// Errors returned by the clips NFT contract.
#[derive(Copy, Clone, Debug, PartialEq, Eq, Structural)]
pub enum Error {
    Unauthorized,
    InvalidTokenId,
    TokenAlreadyMinted,
    RoyaltyTooHigh,
    InvalidRecipient,
    InvalidSalePrice,
    ContractPaused,
    InvalidSignature,
    SignerNotSet,
    InvalidRoyaltySplit,
    SoulboundTransferBlocked,
    RoyaltyOverflow,
    ClipBlacklisted,
    NotAuthorizedToApprove,
    /// Pause timelock has not elapsed yet
    TimelockActive,
    /// No accrued royalties to claim
    NothingToClaim,
}

impl Error {
    /// The numeric code under which the contract reports this error.
    pub open spec fn spec_code(self) -> u32 {
        match self {
            Error::Unauthorized => 1,
            Error::InvalidTokenId => 2,
            Error::TokenAlreadyMinted => 3,
            Error::RoyaltyTooHigh => 4,
            Error::InvalidRecipient => 5,
            Error::InvalidSalePrice => 6,
            Error::ContractPaused => 7,
            Error::InvalidSignature => 8,
            Error::SignerNotSet => 9,
            Error::InvalidRoyaltySplit => 10,
            Error::SoulboundTransferBlocked => 11,
            Error::RoyaltyOverflow => 12,
            Error::ClipBlacklisted => 13,
            Error::NotAuthorizedToApprove => 14,
            Error::TimelockActive => 15,
            Error::NothingToClaim => 16,
        }
    }

    /// The numeric code under which the contract reports this error.
    pub fn code(&self) -> (c: u32)
        ensures
            c == self.spec_code(),
    {
        match self {
            Error::Unauthorized => 1,
            Error::InvalidTokenId => 2,
            Error::TokenAlreadyMinted => 3,
            Error::RoyaltyTooHigh => 4,
            Error::InvalidRecipient => 5,
            Error::InvalidSalePrice => 6,
            Error::ContractPaused => 7,
            Error::InvalidSignature => 8,
            Error::SignerNotSet => 9,
            Error::InvalidRoyaltySplit => 10,
            Error::SoulboundTransferBlocked => 11,
            Error::RoyaltyOverflow => 12,
            Error::ClipBlacklisted => 13,
            Error::NotAuthorizedToApprove => 14,
            Error::TimelockActive => 15,
            Error::NothingToClaim => 16,
        }
    }
}

} // verus!
