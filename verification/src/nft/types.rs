//! The values that the clips NFT contract stores and returns.
use vstd::prelude::*;
use crate::address::{Address, opt_address_view, duplicate_opt_address};

verus! {

pub type TokenId = u32;

/// One share of a token's royalty.
#[derive(Clone, Debug, PartialEq, Eq)]
pub struct RoyaltyRecipient {
    pub recipient: Address,
    pub basis_points: u32,
}

impl View for RoyaltyRecipient {
    type V = (Seq<u8>, u32);

    open spec fn view(&self) -> (Seq<u8>, u32) {
        (self.recipient@, self.basis_points)
    }
}

/// The royalty configuration of a token: its recipients in order, and the
/// asset royalties are paid in (`None` for the native asset).
#[derive(Clone, Debug, PartialEq, Eq)]
pub struct Royalty {
    pub recipients: Vec<RoyaltyRecipient>,
    pub asset_address: Option<Address>,
}

pub struct RoyaltyView {
    pub recipients: Seq<(Seq<u8>, u32)>,
    pub asset_address: Option<Seq<u8>>,
}

impl View for Royalty {
    type V = RoyaltyView;

    open spec fn view(&self) -> RoyaltyView {
        RoyaltyView {
            recipients: self.recipients@.map_values(|r: RoyaltyRecipient| r@),
            asset_address: opt_address_view(self.asset_address),
        }
    }
}

impl RoyaltyRecipient {
    pub fn duplicate(&self) -> (r: RoyaltyRecipient)
        ensures
            r@ == self@,
    {
        RoyaltyRecipient { recipient: self.recipient.duplicate(), basis_points: self.basis_points }
    }
}

impl Royalty {
    /// A copy of this royalty configuration.
    pub fn duplicate(&self) -> (r: Royalty)
        ensures
            r@ == self@,
    {
        let mut recipients: Vec<RoyaltyRecipient> = Vec::new();
        let n = self.recipients.len();
        let mut i: usize = 0;
        while i < n
            invariant
                n == self.recipients.len(),
                i <= n,
                recipients@.len() == i,
                forall|j: int| 0 <= j < i ==> #[trigger] recipients@[j]@ == self.recipients@[j]@,
            decreases n - i,
        {
            recipients.push(self.recipients[i].duplicate());
            i = i + 1;
        }
        let r = Royalty { recipients, asset_address: duplicate_opt_address(&self.asset_address) };
        assert(r@.recipients =~= self@.recipients);
        r
    }
}

/// The answer to a royalty query for a sale.
#[derive(Clone, Debug, PartialEq, Eq)]
pub struct RoyaltyInfo {
    pub receiver: Address,
    pub royalty_amount: i128,
    pub asset_address: Option<Address>,
}

/// A token as the contract stores it.
#[derive(Clone, Debug, PartialEq, Eq)]
pub struct TokenData {
    pub owner: Address,
    pub clip_id: u32,
    pub is_soulbound: bool,
    pub metadata_uri: Vec<u8>,
    pub royalty: Royalty,
    /// Collection this token belongs to (0 = default collection)
    pub collection_id: u32,
}

pub struct TokenView {
    pub owner: Seq<u8>,
    pub clip_id: u32,
    pub is_soulbound: bool,
    pub metadata_uri: Seq<u8>,
    pub royalty: RoyaltyView,
    pub collection_id: u32,
}

impl View for TokenData {
    type V = TokenView;

    open spec fn view(&self) -> TokenView {
        TokenView {
            owner: self.owner@,
            clip_id: self.clip_id,
            is_soulbound: self.is_soulbound,
            metadata_uri: self.metadata_uri@,
            royalty: self.royalty@,
            collection_id: self.collection_id,
        }
    }
}

impl TokenData {
    /// A copy of this token's data.
    pub fn duplicate(&self) -> (r: TokenData)
        ensures
            r@ == self@,
    {
        TokenData {
            owner: self.owner.duplicate(),
            clip_id: self.clip_id,
            is_soulbound: self.is_soulbound,
            metadata_uri: copy_bytes(&self.metadata_uri),
            royalty: self.royalty.duplicate(),
            collection_id: self.collection_id,
        }
    }
}

/// A transfer of royalties that a settlement asks for.
#[derive(Clone, Debug, PartialEq, Eq)]
pub struct RoyaltyPayout {
    pub recipient: Address,
    pub amount: i128,
}

impl View for RoyaltyPayout {
    type V = (Seq<u8>, i128);

    open spec fn view(&self) -> (Seq<u8>, i128) {
        (self.recipient@, self.amount)
    }
}

/// The transfers, in the royalty's asset, that settle a royalty payment:
/// each moves `amount` from the payer to `recipient`, in order.
#[derive(Clone, Debug, PartialEq, Eq)]
pub struct RoyaltySettlement {
    pub asset_address: Address,
    pub payouts: Vec<RoyaltyPayout>,
}

/// A copy of a byte string.
pub fn copy_bytes(b: &Vec<u8>) -> (r: Vec<u8>)
    ensures
        r@ == b@,
{
    let mut out: Vec<u8> = Vec::new();
    let n = b.len();
    let mut i: usize = 0;
    while i < n
        invariant
            n == b.len(),
            i <= n,
            out@ =~= b@.subrange(0, i as int),
        decreases n - i,
    {
        out.push(b[i]);
        i = i + 1;
    }
    assert(out@ =~= b@);
    out
}

} // verus!
