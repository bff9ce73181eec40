//! Royalties: the split of a sale price among recipients, the platform's
//! share, royalty queries, payment with accrual, and claims.
use vstd::prelude::*;
use crate::address::{Address, opt_address_view, duplicate_opt_address};
use crate::error::Error;
use crate::nft::events::{ContractEvent, EventView, RoyaltyPaidEvent, RoyaltyClaimedEvent, RoyaltyRecipientUpdatedEvent};
use crate::nft::state::{ClipsNftContract, NftView, lemma_members_replace};
use crate::nft::types::{TokenId, TokenData, TokenView, Royalty, RoyaltyView, RoyaltyRecipient, RoyaltyInfo, RoyaltyPayout, RoyaltySettlement};

verus! {

broadcast use vstd::std_specs::hash::group_hash_axioms;

/// Basis points in one whole (100%).
pub const BPS_DENOMINATOR: i128 = 10_000;

/// The most basis points that a royalty may add up to (100%).
pub const MAX_TOTAL_BPS: u32 = 10_000;

/// The share that the platform recipient is given when a royalty does not
/// name it.
pub const PLATFORM_SHARE_BPS: u32 = 100;

/// `x` capped at `i128::MAX` from above.
pub open spec fn cap_i128(x: int) -> int {
    if x > i128::MAX { i128::MAX as int } else { x }
}

/// `x` held to the range of `i128`.
pub open spec fn sat_i128(x: int) -> int {
    if x > i128::MAX { i128::MAX as int } else if x < i128::MIN { i128::MIN as int } else { x }
}

/// `x` capped at `u32::MAX` from above.
pub open spec fn cap_u32(x: int) -> int {
    if x > u32::MAX { u32::MAX as int } else { x }
}

/// The royalty due on `sale_price` at `basis_points`, rounded half up, where
/// the product and the rounding addend saturate at `i128::MAX`.
pub open spec fn royalty_amount(sale_price: int, basis_points: int) -> int {
    cap_i128(cap_i128(sale_price * basis_points) + 5_000) / 10_000
}

/// The largest sale price the royalty computation accepts.
pub open spec fn max_sale_price() -> int {
    i128::MAX as int / 10_000
}

/// The result of `calculate_royalty` as a function of its arguments.
pub open spec fn royalty_result(sale_price: i128, basis_points: u32) -> Result<i128, Error> {
    if sale_price <= 0 {
        Err(Error::InvalidSalePrice)
    } else if sale_price > max_sale_price() {
        Err(Error::RoyaltyOverflow)
    } else {
        Ok(royalty_amount(sale_price as int, basis_points as int) as i128)
    }
}

/// The sum of the basis points of the first `k` recipients.
pub open spec fn bps_prefix(recipients: Seq<(Seq<u8>, u32)>, k: int) -> int
    decreases k,
{
    if k <= 0 { 0 } else { bps_prefix(recipients, k - 1) + recipients[k - 1].1 }
}

/// The sum of the basis points of all recipients.
pub open spec fn bps_total(recipients: Seq<(Seq<u8>, u32)>) -> int {
    bps_prefix(recipients, recipients.len() as int)
}

/// Whether `p` is one of the recipients.
pub open spec fn names_recipient(recipients: Seq<(Seq<u8>, u32)>, p: Seq<u8>) -> bool {
    exists|i: int| 0 <= i < recipients.len() && recipients[i].0 == p
}

/// The royalty as stored: the platform recipient is added with
/// `PLATFORM_SHARE_BPS` unless it is already named, and the total must not
/// exceed `MAX_TOTAL_BPS`.
pub open spec fn normalized(platform: Option<Seq<u8>>, r: RoyaltyView) -> Result<RoyaltyView, Error> {
    if r.recipients.len() == 0 {
        Err(Error::InvalidRoyaltySplit)
    } else {
        match platform {
            None => Err(Error::InvalidRecipient),
            Some(p) => {
                let recipients = if names_recipient(r.recipients, p) {
                    r.recipients
                } else {
                    r.recipients.push((p, PLATFORM_SHARE_BPS))
                };
                if bps_total(recipients) > MAX_TOTAL_BPS {
                    Err(Error::RoyaltyTooHigh)
                } else {
                    Ok(RoyaltyView { recipients, asset_address: r.asset_address })
                }
            },
        }
    }
}

pub open spec fn royalty_view_result(r: Result<Royalty, Error>) -> Result<RoyaltyView, Error> {
    match r {
        Ok(ro) => Ok(ro@),
        Err(e) => Err(e),
    }
}

/// The royalty due on a sale of `token_id` at `sale_price`, over all
/// recipients, with the total basis points saturating at `u32::MAX`.
pub open spec fn royalty_amount_result(s: NftView, token_id: u32, sale_price: i128) -> Result<i128, Error> {
    if sale_price <= 0 {
        Err(Error::InvalidSalePrice)
    } else if !s.tokens.contains_key(token_id) {
        Err(Error::InvalidTokenId)
    } else {
        royalty_result(sale_price, cap_u32(bps_total(s.tokens[token_id].royalty.recipients)) as u32)
    }
}

/// The answer to a royalty query: the first recipient, the royalty due over
/// all recipients, and the asset.
pub open spec fn royalty_info_result(s: NftView, token_id: u32, sale_price: i128) -> Result<(Seq<u8>, i128, Option<Seq<u8>>), Error> {
    match royalty_amount_result(s, token_id, sale_price) {
        Err(e) => Err(e),
        Ok(amount) => {
            let ro = s.tokens[token_id].royalty;
            if ro.recipients.len() == 0 {
                Err(Error::InvalidRoyaltySplit)
            } else {
                Ok((ro.recipients[0].0, amount, ro.asset_address))
            }
        },
    }
}

impl View for RoyaltyInfo {
    type V = (Seq<u8>, i128, Option<Seq<u8>>);

    open spec fn view(&self) -> (Seq<u8>, i128, Option<Seq<u8>>) {
        (self.receiver@, self.royalty_amount, opt_address_view(self.asset_address))
    }
}

pub open spec fn info_view_result(r: Result<RoyaltyInfo, Error>) -> Result<(Seq<u8>, i128, Option<Seq<u8>>), Error> {
    match r {
        Ok(i) => Ok(i@),
        Err(e) => Err(e),
    }
}

/// The royalty due, at `sale_price`, on the first `k` recipients together.
pub open spec fn paid_through(sale_price: int, recipients: Seq<(Seq<u8>, u32)>, k: int) -> int {
    royalty_amount(sale_price, cap_u32(bps_prefix(recipients, k)))
}

/// The share of recipient `i`: what the first `i + 1` recipients are due
/// together, less what the first `i` are due, so that rounding never makes
/// the shares add up to more or less than the royalty on their total.
pub open spec fn share_of(sale_price: int, recipients: Seq<(Seq<u8>, u32)>, i: int) -> int {
    paid_through(sale_price, recipients, i + 1) - paid_through(sale_price, recipients, i)
}

/// The transfers to the first `k` recipients, in order, leaving out the
/// recipients whose share is zero.
pub open spec fn payouts_through(sale_price: int, recipients: Seq<(Seq<u8>, u32)>, k: int) -> Seq<(Seq<u8>, i128)>
    decreases k,
{
    if k <= 0 {
        Seq::empty()
    } else {
        let rest = payouts_through(sale_price, recipients, k - 1);
        let a = share_of(sale_price, recipients, k - 1);
        if a == 0 { rest } else { rest.push((recipients[k - 1].0, a as i128)) }
    }
}

/// `accrued` after each payout is added to its recipient's balance, the
/// balances saturating at the bounds of `i128`.
pub open spec fn accrue_all(accrued: Map<Seq<u8>, i128>, payouts: Seq<(Seq<u8>, i128)>) -> Map<Seq<u8>, i128>
    decreases payouts.len(),
{
    if payouts.len() == 0 {
        accrued
    } else {
        let before = accrue_all(accrued, payouts.drop_last());
        let (who, amount) = payouts.last();
        let prev = if before.contains_key(who) { before[who] } else { 0 };
        before.insert(who, sat_i128(prev + amount) as i128)
    }
}

/// The events that announce the payouts.
pub open spec fn payout_events(token_id: u32, payer: Seq<u8>, payouts: Seq<(Seq<u8>, i128)>) -> Seq<EventView> {
    payouts.map_values(|p: (Seq<u8>, i128)| EventView::RoyaltyPaid { token_id, from: payer, to: p.0, amount: p.1 })
}

/// The outcome of a royalty payment: the asset and the transfers, or the
/// error.
pub open spec fn pay_royalty_result(s: NftView, token_id: u32, sale_price: i128) -> Result<(Seq<u8>, Seq<(Seq<u8>, i128)>), Error> {
    if sale_price <= 0 {
        Err(Error::InvalidSalePrice)
    } else if !s.tokens.contains_key(token_id) {
        Err(Error::InvalidTokenId)
    } else {
        let ro = s.tokens[token_id].royalty;
        match ro.asset_address {
            None => Err(Error::InvalidRecipient),
            Some(asset) => {
                if ro.recipients.len() > 0 && sale_price > max_sale_price() {
                    Err(Error::RoyaltyOverflow)
                } else {
                    Ok((asset, payouts_through(sale_price as int, ro.recipients, ro.recipients.len() as int)))
                }
            },
        }
    }
}

/// The state after a royalty payment of `payouts` by `payer` for `token_id`.
pub open spec fn royalty_paid(s: NftView, token_id: u32, payer: Seq<u8>, payouts: Seq<(Seq<u8>, i128)>) -> NftView {
    NftView {
        accrued: accrue_all(s.accrued, payouts),
        events: s.events + payout_events(token_id, payer, payouts),
        ..s
    }
}

pub open spec fn settlement_view(st: RoyaltySettlement) -> (Seq<u8>, Seq<(Seq<u8>, i128)>) {
    (st.asset_address@, st.payouts@.map_values(|p: RoyaltyPayout| p@))
}

/// The outcome of `set_royalty`.
pub open spec fn set_royalty_result(s: NftView, admin: Seq<u8>, token_id: u32, new_royalty: RoyaltyView) -> Result<RoyaltyView, Error> {
    if s.admin != Some(admin) {
        Err(Error::Unauthorized)
    } else if !s.tokens.contains_key(token_id) {
        Err(Error::InvalidTokenId)
    } else {
        normalized(s.platform_recipient, new_royalty)
    }
}

/// The state after `token_id`'s royalty is replaced by `r`, announcing a
/// change of first recipient.
pub open spec fn royalty_set(s: NftView, token_id: u32, r: RoyaltyView) -> NftView {
    let t = s.tokens[token_id];
    let old_r = t.royalty.recipients;
    let s2 = NftView { tokens: s.tokens.insert(token_id, TokenView { royalty: r, ..t }), ..s };
    if old_r.len() > 0 && r.recipients.len() > 0 && old_r[0].0 != r.recipients[0].0 {
        s2.emit(EventView::RoyaltyRecipientUpdated {
            token_id,
            old_recipient: old_r[0].0,
            new_recipient: r.recipients[0].0,
        })
    } else {
        s2
    }
}

/// The outcome of `update_royalty_recipient`.
pub open spec fn update_recipient_result(s: NftView, caller: Seq<u8>, token_id: u32) -> Result<(), Error> {
    if !s.tokens.contains_key(token_id) {
        Err(Error::InvalidTokenId)
    } else if s.tokens[token_id].royalty.recipients.len() == 0 {
        Err(Error::InvalidRoyaltySplit)
    } else if s.tokens[token_id].royalty.recipients[0].0 != caller {
        Err(Error::Unauthorized)
    } else {
        Ok(())
    }
}

/// The state after the first recipient of `token_id`'s royalty is replaced
/// by `new_recipient`, keeping its share.
pub open spec fn recipient_updated(s: NftView, token_id: u32, new_recipient: Seq<u8>) -> NftView {
    let t = s.tokens[token_id];
    let old = t.royalty.recipients[0];
    let r = RoyaltyView {
        recipients: t.royalty.recipients.update(0, (new_recipient, old.1)),
        asset_address: t.royalty.asset_address,
    };
    NftView { tokens: s.tokens.insert(token_id, TokenView { royalty: r, ..t }), ..s }.emit(
        EventView::RoyaltyRecipientUpdated { token_id, old_recipient: old.0, new_recipient },
    )
}

/// The sum of the amounts of `payouts`.
pub open spec fn payout_sum(payouts: Seq<(Seq<u8>, i128)>) -> int
    decreases payouts.len(),
{
    if payouts.len() == 0 { 0 } else { payout_sum(payouts.drop_last()) + payouts.last().1 }
}

pub proof fn lemma_bps_prefix_bounds(recipients: Seq<(Seq<u8>, u32)>, k: int)
    requires
        0 <= k <= recipients.len(),
    ensures
        0 <= bps_prefix(recipients, k),
    decreases k,
{
    if k > 0 {
        lemma_bps_prefix_bounds(recipients, k - 1);
    }
}

/// The sum of the basis points of the recipients, saturating at `u32::MAX`.
fn saturated_bps(recipients: &Vec<RoyaltyRecipient>) -> (r: u32)
    ensures
        r == cap_u32(bps_total(recipients@.map_values(|x: RoyaltyRecipient| x@))),
{
    let ghost rs = recipients@.map_values(|x: RoyaltyRecipient| x@);
    let n = recipients.len();
    let mut total: u32 = 0;
    let mut i: usize = 0;
    while i < n
        invariant
            n == recipients.len(),
            rs == recipients@.map_values(|x: RoyaltyRecipient| x@),
            i <= n,
            total == cap_u32(bps_prefix(rs, i as int)),
        decreases n - i,
    {
        proof {
            lemma_bps_prefix_bounds(rs, i as int);
            assert(rs[i as int].1 == recipients@[i as int].basis_points);
        }
        total = total.saturating_add(recipients[i].basis_points);
        i = i + 1;
    }
    total
}

impl ClipsNftContract {
    pub fn calculate_royalty(sale_price: i128, basis_points: u32) -> (r: Result<i128, Error>)
        ensures
            r == royalty_result(sale_price, basis_points),
    {
        if sale_price <= 0 {
            return Err(Error::InvalidSalePrice);
        }
        if sale_price > i128::MAX / BPS_DENOMINATOR {
            return Err(Error::RoyaltyOverflow);
        }
        proof {
            assert(sale_price * basis_points >= 0) by (nonlinear_arith)
                requires
                    sale_price > 0,
                    basis_points >= 0,
            ;
        }
        let amount: i128 = match sale_price.checked_mul(basis_points as i128) {
            Some(a) => a,
            None => i128::MAX,
        };
        let rounded: i128 = if amount > i128::MAX - 5_000 { i128::MAX } else { amount + 5_000 };
        Ok(rounded / BPS_DENOMINATOR)
    }

    /// The stored form of `royalty`: see [`normalized`].
    pub fn normalize_royalty(&self, royalty: Royalty) -> (r: Result<Royalty, Error>)
        ensures
            royalty_view_result(r) == normalized(self@.platform_recipient, royalty@),
    {
        if royalty.recipients.len() == 0 {
            return Err(Error::InvalidRoyaltySplit);
        }
        let platform = match &self.platform_recipient {
            Some(p) => p,
            None => {
                return Err(Error::InvalidRecipient);
            },
        };
        let ghost rs = royalty@.recipients;
        let Royalty { recipients, asset_address } = royalty;
        let mut recipients = recipients;
        let n = recipients.len();
        let mut has_platform = false;
        let mut total_bps: u32 = 0;
        let mut i: usize = 0;
        while i < n
            invariant
                n == recipients.len(),
                rs == recipients@.map_values(|x: RoyaltyRecipient| x@),
                i <= n,
                total_bps == cap_u32(bps_prefix(rs, i as int)),
                has_platform == (exists|j: int| 0 <= j < i && rs[j].0 == platform@),
            decreases n - i,
        {
            proof {
                lemma_bps_prefix_bounds(rs, i as int);
            }
            let s = &recipients[i];
            if s.recipient.same_as(platform) {
                has_platform = true;
            }
            total_bps = total_bps.saturating_add(s.basis_points);
            proof {
                assert(rs[i as int] == s@);
                if !has_platform {
                    assert forall|j: int| 0 <= j < i + 1 implies rs[j].0 != platform@ by {
                        if j < i {
                            if rs[j].0 == platform@ {
                                assert(exists|j: int| 0 <= j < i && rs[j].0 == platform@);
                            }
                        }
                    }
                }
            }
            i = i + 1;
        }
        if !has_platform {
            proof {
                lemma_bps_prefix_bounds(rs, n as int);
            }
            recipients.push(RoyaltyRecipient { recipient: platform.duplicate(), basis_points: PLATFORM_SHARE_BPS });
            total_bps = total_bps.saturating_add(PLATFORM_SHARE_BPS);
            proof {
                let pushed = rs.push((platform@, PLATFORM_SHARE_BPS));
                assert(recipients@.map_values(|x: RoyaltyRecipient| x@) =~= pushed);
                assert(bps_prefix(pushed, n as int) == bps_prefix(rs, n as int)) by {
                    lemma_bps_prefix_extend(rs, (platform@, PLATFORM_SHARE_BPS), n as int);
                }
            }
        }
        if total_bps > MAX_TOTAL_BPS {
            return Err(Error::RoyaltyTooHigh);
        }
        let r = Royalty { recipients, asset_address };
        proof {
            if !has_platform {
                assert(!names_recipient(rs, platform@));
            }
        }
        Ok(r)
    }

    /// The royalty due on a sale of `token_id` at `sale_price`.
    pub fn calculate_royalty_amount(&self, token_id: TokenId, sale_price: i128) -> (r: Result<i128, Error>)
        ensures
            r == royalty_amount_result(self@, token_id, sale_price),
    {
        if sale_price <= 0 {
            return Err(Error::InvalidSalePrice);
        }
        let data = self.load_token(token_id)?;
        let total_bps = saturated_bps(&data.royalty.recipients);
        Self::calculate_royalty(sale_price, total_bps)
    }

    pub fn royalty_info(&self, token_id: TokenId, sale_price: i128) -> (r: Result<RoyaltyInfo, Error>)
        ensures
            info_view_result(r) == royalty_info_result(self@, token_id, sale_price),
    {
        if sale_price <= 0 {
            return Err(Error::InvalidSalePrice);
        }
        let data = self.load_token(token_id)?;
        let total_bps = saturated_bps(&data.royalty.recipients);
        let total_amount = Self::calculate_royalty(sale_price, total_bps)?;
        if data.royalty.recipients.len() == 0 {
            return Err(Error::InvalidRoyaltySplit);
        }
        let first = &data.royalty.recipients[0];
        proof {
            assert(data@.royalty.recipients[0] == first@);
        }
        Ok(RoyaltyInfo {
            receiver: first.recipient.duplicate(),
            royalty_amount: total_amount,
            asset_address: duplicate_opt_address(&data.royalty.asset_address),
        })
    }

    /// Add `amount` to the royalties accrued to `recipient`, saturating.
    fn accrue(&mut self, recipient: &Address, amount: i128)
        ensures
            final(self)@ == (NftView {
                accrued: old(self)@.accrued.insert(
                    recipient@,
                    sat_i128(old(self)@.accrued_of(recipient@) + amount) as i128,
                ),
                ..old(self)@
            }),
    {
        let prev = self.accrued_royalties(recipient);
        let sum: i128 = match prev.checked_add(amount) {
            Some(x) => x,
            None => if amount > 0 { i128::MAX } else { i128::MIN },
        };
        self.accrued.set(recipient.duplicate(), sum);
    }

    /// Pay royalties for a SEP-0041 asset sale and accrue amounts so recipients
    /// can later call `claim_royalties`.
    ///
    /// The result lists the transfers of the royalty's asset, from `payer` to
    /// each recipient, that settle the payment.
    pub fn pay_royalty(&mut self, payer: &Address, token_id: TokenId, sale_price: i128) -> (r: Result<RoyaltySettlement, Error>)
        ensures
            match r {
                Ok(st) => {
                    &&& pay_royalty_result(old(self)@, token_id, sale_price) == Ok::<_, Error>(settlement_view(st))
                    &&& final(self)@ == royalty_paid(old(self)@, token_id, payer@, settlement_view(st).1)
                },
                Err(e) => {
                    &&& pay_royalty_result(old(self)@, token_id, sale_price) == Err::<(Seq<u8>, Seq<(Seq<u8>, i128)>), Error>(e)
                    &&& final(self)@ == old(self)@
                },
            },
            old(self).wf() ==> final(self).wf(),
    {
        if sale_price <= 0 {
            return Err(Error::InvalidSalePrice);
        }
        let royalty = self.load_token(token_id)?.royalty.duplicate();
        let asset_address = match &royalty.asset_address {
            Some(a) => a.duplicate(),
            None => {
                return Err(Error::InvalidRecipient);
            },
        };
        let n = royalty.recipients.len();
        if n > 0 && sale_price > i128::MAX / BPS_DENOMINATOR {
            return Err(Error::RoyaltyOverflow);
        }
        let ghost s0 = self@;
        let ghost rs = royalty@.recipients;
        let ghost p = sale_price as int;
        let mut payouts: Vec<RoyaltyPayout> = Vec::new();
        let mut cumulative_bps: u32 = 0;
        let mut cumulative_paid: i128 = 0;
        let mut i: usize = 0;
        while i < n
            invariant
                n == royalty.recipients.len(),
                rs == royalty@.recipients,
                rs == royalty.recipients@.map_values(|x: RoyaltyRecipient| x@),
                0 < sale_price,
                n > 0 ==> sale_price <= max_sale_price(),
                p == sale_price,
                i <= n,
                cumulative_bps == cap_u32(bps_prefix(rs, i as int)),
                cumulative_paid == paid_through(p, rs, i as int),
                payouts@.map_values(|x: RoyaltyPayout| x@) == payouts_through(p, rs, i as int),
                self@ == royalty_paid(s0, token_id, payer@, payouts_through(p, rs, i as int)),
            decreases n - i,
        {
            proof {
                lemma_bps_prefix_bounds(rs, i as int);
                lemma_paid_through_bounds(p, rs, i as int);
                lemma_paid_through_bounds(p, rs, i + 1);
                assert(rs[i as int] == royalty.recipients@[i as int]@);
            }
            let split = &royalty.recipients[i];
            cumulative_bps = cumulative_bps.saturating_add(split.basis_points);
            let total_so_far = match Self::calculate_royalty(sale_price, cumulative_bps) {
                Ok(t) => t,
                Err(_) => {
                    proof {
                        assert(false);
                    }
                    return Err(Error::RoyaltyOverflow);
                },
            };
            let amount = total_so_far - cumulative_paid;
            cumulative_paid = total_so_far;
            let ghost before = payouts_through(p, rs, i as int);
            proof {
                assert(cumulative_bps == cap_u32(bps_prefix(rs, i + 1)));
                assert(amount == share_of(p, rs, i as int));
            }
            if amount != 0 {
                let ghost after = before.push((split.recipient@, amount));
                proof {
                    assert(after.drop_last() =~= before);
                    assert(payouts_through(p, rs, i + 1) == after);
                }
                self.accrue(&split.recipient, amount);
                proof {
                    assert(self@.accrued == accrue_all(s0.accrued, after));
                }
                self.emit(
                    ContractEvent::RoyaltyPaid(RoyaltyPaidEvent {
                        token_id,
                        from: payer.duplicate(),
                        to: split.recipient.duplicate(),
                        amount,
                    }),
                );
                let ghost pv = payouts@.map_values(|x: RoyaltyPayout| x@);
                payouts.push(RoyaltyPayout { recipient: split.recipient.duplicate(), amount });
                proof {
                    assert(payouts@.map_values(|x: RoyaltyPayout| x@) =~= pv.push((split.recipient@, amount)));
                    assert(payout_events(token_id, payer@, after) =~= payout_events(token_id, payer@, before).push(
                        EventView::RoyaltyPaid { token_id, from: payer@, to: split.recipient@, amount },
                    ));
                    assert(self@.events =~= s0.events + payout_events(token_id, payer@, after));
                }
            } else {
                proof {
                    assert(payouts_through(p, rs, i + 1) == before);
                }
            }
            i = i + 1;
        }
        Ok(RoyaltySettlement { asset_address, payouts })
    }

    /// Claim all accrued royalties for the caller.
    ///
    /// Transfers the full accrued balance to `recipient`, then zeroes it out
    /// so the same amount cannot be claimed twice (double-claim prevention).
    /// Emits `RoyaltyClaimed`.
    pub fn claim_royalties(&mut self, recipient: &Address) -> (r: Result<i128, Error>)
        ensures
            old(self)@.accrued_of(recipient@) == 0 ==> {
                &&& r == Err::<i128, Error>(Error::NothingToClaim)
                &&& final(self)@ == old(self)@
            },
            old(self)@.accrued_of(recipient@) != 0 ==> {
                &&& r == Ok::<i128, Error>(old(self)@.accrued_of(recipient@))
                &&& final(self)@ == (NftView {
                    accrued: old(self)@.accrued.insert(recipient@, 0),
                    ..old(self)@
                }).emit(EventView::RoyaltyClaimed { recipient: recipient@, amount: old(self)@.accrued_of(recipient@) })
            },
            old(self).wf() ==> final(self).wf(),
    {
        let accrued = self.accrued_royalties(recipient);
        if accrued == 0 {
            return Err(Error::NothingToClaim);
        }
        self.accrued.set(recipient.duplicate(), 0);
        self.emit(ContractEvent::RoyaltyClaimed(RoyaltyClaimedEvent { recipient: recipient.duplicate(), amount: accrued }));
        Ok(accrued)
    }

    pub fn set_royalty(&mut self, admin: &Address, token_id: TokenId, new_royalty: Royalty) -> (r: Result<(), Error>)
        requires
            old(self)@.admin is Some,
        ensures
            match set_royalty_result(old(self)@, admin@, token_id, new_royalty@) {
                Ok(n) => r == Ok::<(), Error>(()) && final(self)@ == royalty_set(old(self)@, token_id, n),
                Err(e) => r == Err::<(), Error>(e) && final(self)@ == old(self)@,
            },
            old(self).wf() ==> final(self).wf(),
    {
        self.require_admin(admin)?;
        let _ = self.load_token(token_id)?;
        let new_royalty = self.normalize_royalty(new_royalty)?;
        let ghost s0 = self@;
        let mut data = self.take_token(token_id);
        let ghost t0 = data@;
        let mut announce: Option<ContractEvent> = None;
        if data.royalty.recipients.len() > 0 && new_royalty.recipients.len() > 0 {
            let old_r = &data.royalty.recipients[0];
            let new_r = &new_royalty.recipients[0];
            proof {
                assert(t0.royalty.recipients[0] == old_r@);
                assert(new_royalty@.recipients[0] == new_r@);
            }
            if !old_r.recipient.same_as(&new_r.recipient) {
                announce = Some(
                    ContractEvent::RoyaltyRecipientUpdated(RoyaltyRecipientUpdatedEvent {
                        token_id,
                        old_recipient: old_r.recipient.duplicate(),
                        new_recipient: new_r.recipient.duplicate(),
                    }),
                );
            }
        }
        let ghost nv = new_royalty@;
        data.royalty = new_royalty;
        self.store_token(token_id, data);
        proof {
            assert(self@.tokens =~= s0.tokens.insert(token_id, TokenView { royalty: nv, ..t0 }));
            if s0.wf() {
                lemma_members_replace(s0.tokens, token_id, TokenView { royalty: nv, ..t0 });
            }
        }
        match announce {
            Some(e) => self.emit(e),
            None => {},
        }
        Ok(())
    }

    pub fn update_royalty_recipient(&mut self, caller: &Address, token_id: TokenId, new_recipient: &Address) -> (r: Result<(), Error>)
        ensures
            r == update_recipient_result(old(self)@, caller@, token_id),
            r is Ok ==> final(self)@ == recipient_updated(old(self)@, token_id, new_recipient@),
            r is Err ==> final(self)@ == old(self)@,
            old(self).wf() ==> final(self).wf(),
    {
        let data0 = self.load_token(token_id)?;
        if data0.royalty.recipients.len() == 0 {
            return Err(Error::InvalidRoyaltySplit);
        }
        if !data0.royalty.recipients[0].recipient.same_as(caller) {
            proof {
                assert(data0@.royalty.recipients[0] == data0.royalty.recipients@[0]@);
            }
            return Err(Error::Unauthorized);
        }
        let ghost s0 = old(self)@;
        let mut data = self.take_token(token_id);
        let ghost t0 = data@;
        let old_recipient = data.royalty.recipients[0].recipient.duplicate();
        let bps = data.royalty.recipients[0].basis_points;
        proof {
            assert(t0.royalty.recipients[0] == data.royalty.recipients@[0]@);
        }
        data.royalty.recipients.set(0, RoyaltyRecipient { recipient: new_recipient.duplicate(), basis_points: bps });
        proof {
            assert(data@.royalty.recipients =~= t0.royalty.recipients.update(0, (new_recipient@, bps)));
        }
        self.store_token(token_id, data);
        proof {
            assert(self@.tokens =~= s0.tokens.insert(token_id, data@));
            if s0.wf() {
                lemma_members_replace(s0.tokens, token_id, data@);
            }
        }
        self.emit(
            ContractEvent::RoyaltyRecipientUpdated(RoyaltyRecipientUpdatedEvent {
                token_id,
                old_recipient,
                new_recipient: new_recipient.duplicate(),
            }),
        );
        Ok(())
    }
}

pub proof fn lemma_bps_prefix_extend(rs: Seq<(Seq<u8>, u32)>, x: (Seq<u8>, u32), k: int)
    requires
        0 <= k <= rs.len(),
    ensures
        bps_prefix(rs.push(x), k) == bps_prefix(rs, k),
        bps_prefix(rs.push(x), rs.len() as int + 1) == bps_prefix(rs, rs.len() as int) + x.1,
    decreases k,
{
    if k > 0 {
        lemma_bps_prefix_extend(rs, x, k - 1);
    }
    lemma_bps_prefix_extend_all(rs, x, rs.len() as int);
}

proof fn lemma_bps_prefix_extend_all(rs: Seq<(Seq<u8>, u32)>, x: (Seq<u8>, u32), k: int)
    requires
        0 <= k <= rs.len(),
    ensures
        bps_prefix(rs.push(x), k) == bps_prefix(rs, k),
    decreases k,
{
    if k > 0 {
        lemma_bps_prefix_extend_all(rs, x, k - 1);
    }
}

pub proof fn lemma_royalty_amount_bounds(sale_price: int, bps: int)
    requires
        0 < sale_price <= max_sale_price(),
        0 <= bps <= u32::MAX,
    ensures
        0 <= royalty_amount(sale_price, bps) <= i128::MAX / 10_000,
{
    assert(sale_price * bps >= 0) by (nonlinear_arith)
        requires
            sale_price > 0,
            bps >= 0,
    ;
}

pub proof fn lemma_paid_through_bounds(sale_price: int, rs: Seq<(Seq<u8>, u32)>, k: int)
    requires
        0 < sale_price <= max_sale_price(),
        0 <= k <= rs.len(),
    ensures
        0 <= paid_through(sale_price, rs, k) <= i128::MAX / 10_000,
{
    lemma_bps_prefix_bounds(rs, k);
    lemma_royalty_amount_bounds(sale_price, cap_u32(bps_prefix(rs, k)));
}

} // verus!
