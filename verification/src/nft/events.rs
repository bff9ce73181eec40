//! The events that the clips NFT contract emits.
use vstd::prelude::*;
use crate::address::Address;
use crate::nft::types::TokenId;

verus! {

#[derive(Clone, Debug, PartialEq, Eq)]
pub struct MintEvent {
    pub to: Address,
    pub clip_id: u32,
    pub token_id: TokenId,
    pub metadata_uri: Vec<u8>,
    pub collection_id: u32,
}

#[derive(Clone, Debug, PartialEq, Eq)]
pub struct BurnEvent {
    pub owner: Address,
    pub token_id: TokenId,
    pub clip_id: u32,
}

#[derive(Clone, Debug, PartialEq, Eq)]
pub struct TransferEvent {
    pub token_id: TokenId,
    pub from: Address,
    pub to: Address,
}

#[derive(Clone, Debug, PartialEq, Eq)]
pub struct BlacklistEvent {
    pub clip_id: u32,
}

#[derive(Clone, Debug, PartialEq, Eq)]
pub struct ApprovalEvent {
    pub owner: Address,
    pub operator: Address,
    pub token_id: TokenId,
}

#[derive(Clone, Debug, PartialEq, Eq)]
pub struct ApprovalForAllEvent {
    pub owner: Address,
    pub operator: Address,
    pub approved: bool,
}

#[derive(Clone, Debug, PartialEq, Eq)]
pub struct RoyaltyPaidEvent {
    pub token_id: TokenId,
    pub from: Address,
    pub to: Address,
    pub amount: i128,
}

#[derive(Clone, Debug, PartialEq, Eq)]
pub struct RoyaltyRecipientUpdatedEvent {
    pub token_id: TokenId,
    pub old_recipient: Address,
    pub new_recipient: Address,
}

/// Emitted when a royalty recipient claims their accrued balance.
#[derive(Clone, Debug, PartialEq, Eq)]
pub struct RoyaltyClaimedEvent {
    pub recipient: Address,
    pub amount: i128,
}

#[derive(Clone, Debug, PartialEq, Eq)]
pub struct UpgradeEvent {
    pub new_wasm_hash: [u8; 32],
}

#[derive(Clone, Debug, PartialEq, Eq)]
pub struct BatchMintEvent {
    pub to: Address,
    pub count: u32,
    pub first_token_id: TokenId,
}

/// An event together with the topic it is published under.
#[derive(Clone, Debug, PartialEq, Eq)]
pub enum ContractEvent {
    /// topic `upgrade`
    Upgrade(UpgradeEvent),
    /// topic `paused`: the ledger sequence of the pause
    Paused(u32),
    /// topic `unpaused`: the ledger sequence of the unpause
    Unpaused(u32),
    /// topic `blacklist`
    Blacklist(BlacklistEvent),
    /// topic `mint`
    Mint(MintEvent),
    /// topic `approve`
    Approve(ApprovalEvent),
    /// topic `appr_all`
    ApprovalForAll(ApprovalForAllEvent),
    /// topic `transfer`
    Transfer(TransferEvent),
    /// topic `royalty`
    RoyaltyPaid(RoyaltyPaidEvent),
    /// topic `royalty`
    RoyaltyRecipientUpdated(RoyaltyRecipientUpdatedEvent),
    /// topic `claimed`
    RoyaltyClaimed(RoyaltyClaimedEvent),
    /// topic `burn`
    Burn(BurnEvent),
    /// topic `batch_mnt`
    BatchMint(BatchMintEvent),
}

pub enum EventView {
    Upgrade { new_wasm_hash: Seq<u8> },
    Paused { ledger: u32 },
    Unpaused { ledger: u32 },
    Blacklist { clip_id: u32 },
    Mint { to: Seq<u8>, clip_id: u32, token_id: u32, metadata_uri: Seq<u8>, collection_id: u32 },
    Approve { owner: Seq<u8>, operator: Seq<u8>, token_id: u32 },
    ApprovalForAll { owner: Seq<u8>, operator: Seq<u8>, approved: bool },
    Transfer { token_id: u32, from: Seq<u8>, to: Seq<u8> },
    RoyaltyPaid { token_id: u32, from: Seq<u8>, to: Seq<u8>, amount: i128 },
    RoyaltyRecipientUpdated { token_id: u32, old_recipient: Seq<u8>, new_recipient: Seq<u8> },
    RoyaltyClaimed { recipient: Seq<u8>, amount: i128 },
    Burn { owner: Seq<u8>, token_id: u32, clip_id: u32 },
    BatchMint { to: Seq<u8>, count: u32, first_token_id: u32 },
}

impl View for ContractEvent {
    type V = EventView;

    open spec fn view(&self) -> EventView {
        match self {
            ContractEvent::Upgrade(e) => EventView::Upgrade { new_wasm_hash: e.new_wasm_hash@ },
            ContractEvent::Paused(l) => EventView::Paused { ledger: *l },
            ContractEvent::Unpaused(l) => EventView::Unpaused { ledger: *l },
            ContractEvent::Blacklist(e) => EventView::Blacklist { clip_id: e.clip_id },
            ContractEvent::Mint(e) => EventView::Mint {
                to: e.to@,
                clip_id: e.clip_id,
                token_id: e.token_id,
                metadata_uri: e.metadata_uri@,
                collection_id: e.collection_id,
            },
            ContractEvent::Approve(e) => EventView::Approve {
                owner: e.owner@,
                operator: e.operator@,
                token_id: e.token_id,
            },
            ContractEvent::ApprovalForAll(e) => EventView::ApprovalForAll {
                owner: e.owner@,
                operator: e.operator@,
                approved: e.approved,
            },
            ContractEvent::Transfer(e) => EventView::Transfer {
                token_id: e.token_id,
                from: e.from@,
                to: e.to@,
            },
            ContractEvent::RoyaltyPaid(e) => EventView::RoyaltyPaid {
                token_id: e.token_id,
                from: e.from@,
                to: e.to@,
                amount: e.amount,
            },
            ContractEvent::RoyaltyRecipientUpdated(e) => EventView::RoyaltyRecipientUpdated {
                token_id: e.token_id,
                old_recipient: e.old_recipient@,
                new_recipient: e.new_recipient@,
            },
            ContractEvent::RoyaltyClaimed(e) => EventView::RoyaltyClaimed {
                recipient: e.recipient@,
                amount: e.amount,
            },
            ContractEvent::Burn(e) => EventView::Burn {
                owner: e.owner@,
                token_id: e.token_id,
                clip_id: e.clip_id,
            },
            ContractEvent::BatchMint(e) => EventView::BatchMint {
                to: e.to@,
                count: e.count,
                first_token_id: e.first_token_id,
            },
        }
    }
}

} // verus!
