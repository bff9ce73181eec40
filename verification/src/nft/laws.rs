//! Properties of the clips NFT contract that relate several entry points or
//! several calls.
use vstd::prelude::*;
use crate::error::Error;
use crate::nft::state::{NftView, PAUSE_TIMELOCK_LEDGERS};
use crate::nft::types::{TokenView, RoyaltyView};
use crate::nft::events::EventView;
use crate::nft::mint::{mint_check, minted, batch_check, batch_first_error, batch_item_error, clip_signature_result};
use crate::nft::transfer::{transfer_result, transfer_from_result, approve_result, transferred, burned, approval_set, may_spend};
use crate::nft::admin::{unpause_result, ledgers_since_pause};
use crate::nft::royalty::{
    normalized, names_recipient, bps_total, bps_prefix, payouts_through, payout_sum, paid_through,
    share_of, royalty_amount, royalty_amount_result, max_sale_price, cap_u32, cap_i128, MAX_TOTAL_BPS,
    PLATFORM_SHARE_BPS, lemma_bps_prefix_bounds, lemma_bps_prefix_extend, accrue_all, pay_royalty_result,
    royalty_paid, set_royalty_result, royalty_set,
};

verus! {

/// After a mint, the new token, under the id that the mint returned, is
/// held by the recipient with the given metadata, soulbound flag,
/// collection and stored royalty; the clip points at it; and the total
/// supply and the collection's supply each grow by one.
pub proof fn lemma_mint_read_back(
    s: NftView,
    to: Seq<u8>,
    clip_id: u32,
    uri: Seq<u8>,
    royalty: RoyaltyView,
    signature: Seq<u8>,
    is_soulbound: bool,
    collection_id: u32,
)
    requires
        s.wf(),
        s.next_token_id < u32::MAX,
        mint_check(s, to, clip_id, uri, royalty, signature) is Ok,
    ensures
        ({
            let n = mint_check(s, to, clip_id, uri, royalty, signature)->Ok_0;
            let s2 = minted(s, to, clip_id, uri, n, is_soulbound, collection_id);
            let id = s.next_token_id;
            &&& s2.tokens.contains_key(id)
            &&& s2.tokens[id].owner == to
            &&& s2.tokens[id].metadata_uri == uri
            &&& s2.tokens[id].is_soulbound == is_soulbound
            &&& s2.tokens[id].collection_id == collection_id
            &&& s2.tokens[id].royalty == n
            &&& s2.clip_tokens[clip_id] == id
            &&& s2.minted_count() == s.minted_count() + 1
            &&& s2.collection_count(collection_id) == s.collection_count(collection_id) + 1
        }),
{
    let c = collection_id;
    if s.collection_counts.contains_key(c) {
        assert(s.collection_counts[c] < s.next_token_id);
    }
}

/// A clip is minted at most once: once a mint of a clip has succeeded, every
/// further mint of the same clip fails, whoever asks and whatever it
/// carries.
pub proof fn lemma_clip_minted_once(
    s: NftView,
    to: Seq<u8>,
    clip_id: u32,
    uri: Seq<u8>,
    royalty: RoyaltyView,
    signature: Seq<u8>,
    is_soulbound: bool,
    collection_id: u32,
    to2: Seq<u8>,
    uri2: Seq<u8>,
    royalty2: RoyaltyView,
    signature2: Seq<u8>,
)
    requires
        s.wf(),
        mint_check(s, to, clip_id, uri, royalty, signature) is Ok,
    ensures
        ({
            let n = mint_check(s, to, clip_id, uri, royalty, signature)->Ok_0;
            let s2 = minted(s, to, clip_id, uri, n, is_soulbound, collection_id);
            mint_check(s2, to2, clip_id, uri2, royalty2, signature2) is Err
        }),
{
}

/// In a well-formed state no two live tokens were minted for the same clip.
pub proof fn lemma_clip_tokens_unique(s: NftView, id1: u32, id2: u32)
    requires
        s.wf(),
        s.tokens.contains_key(id1),
        s.tokens.contains_key(id2),
        s.tokens[id1].clip_id == s.tokens[id2].clip_id,
    ensures
        id1 == id2,
{
}

/// A transfer hands the token to the new owner, clears its approval and
/// leaves every other token as it was.
pub proof fn lemma_transfer_moves_owner(s: NftView, from: Seq<u8>, to: Seq<u8>, token_id: u32, other: u32)
    requires
        s.tokens.contains_key(token_id),
    ensures
        transferred(s, from, to, token_id).tokens[token_id].owner == to,
        !transferred(s, from, to, token_id).approved.contains_key(token_id),
        other != token_id ==> transferred(s, from, to, token_id).tokens[other] == s.tokens[other]
            && transferred(s, from, to, token_id).tokens.contains_key(other) == s.tokens.contains_key(other),
{
}

/// A soulbound token never changes hands: both transfers of it fail, for
/// every sender, spender and owner named.
pub proof fn lemma_soulbound_stays(s: NftView, token_id: u32, from: Seq<u8>, spender: Seq<u8>)
    requires
        s.tokens.contains_key(token_id),
        s.tokens[token_id].is_soulbound,
    ensures
        transfer_result(s, from, token_id) is Err,
        transfer_from_result(s, spender, from, token_id) is Err,
{
}

/// While the contract is paused, mints, batch mints, transfers and
/// approvals all fail with `ContractPaused`.
pub proof fn lemma_paused_blocks(
    s: NftView,
    to: Seq<u8>,
    clip_id: u32,
    uri: Seq<u8>,
    royalty: RoyaltyView,
    signature: Seq<u8>,
    clips: Seq<u32>,
    uris: Seq<Seq<u8>>,
    signatures: Seq<Seq<u8>>,
    from: Seq<u8>,
    spender: Seq<u8>,
    token_id: u32,
)
    requires
        s.paused,
    ensures
        mint_check(s, to, clip_id, uri, royalty, signature) == Err::<RoyaltyView, Error>(Error::ContractPaused),
        batch_check(s, to, clips, uris, royalty, signatures) == Err::<RoyaltyView, Error>(Error::ContractPaused),
        transfer_result(s, from, token_id) == Err::<(), Error>(Error::ContractPaused),
        transfer_from_result(s, spender, from, token_id) == Err::<(), Error>(Error::ContractPaused),
        approve_result(s, spender, token_id) == Err::<(), Error>(Error::ContractPaused),
{
}

/// The state right after the admin paused the contract at ledger `at`.
pub open spec fn paused_at(s: NftView, at: u32) -> NftView {
    NftView { paused: true, pause_requested_at: at, ..s }.emit(EventView::Paused { ledger: at })
}

/// After a pause at ledger `at`, the admin's unpause at ledger `now` fails
/// with `TimelockActive` until `PAUSE_TIMELOCK_LEDGERS` ledgers have passed,
/// and succeeds from then on.
pub proof fn lemma_unpause_after_timelock(s: NftView, admin: Seq<u8>, at: u32, now: u32)
    requires
        s.admin == Some(admin),
    ensures
        now < at + PAUSE_TIMELOCK_LEDGERS ==> unpause_result(paused_at(s, at), admin, now)
            == Err::<(), Error>(Error::TimelockActive),
        now >= at + PAUSE_TIMELOCK_LEDGERS ==> unpause_result(paused_at(s, at), admin, now) == Ok::<(), Error>(()),
{
}

/// The state right after `recipient` claimed its accrued royalties.
pub open spec fn claimed(s: NftView, recipient: Seq<u8>) -> NftView {
    NftView { accrued: s.accrued.insert(recipient, 0), ..s }.emit(
        EventView::RoyaltyClaimed { recipient, amount: s.accrued_of(recipient) },
    )
}

/// A claim zeroes the balance it pays out, so a second claim right after it
/// finds nothing to claim; other balances are untouched.
pub proof fn lemma_claim_zeroes(s: NftView, recipient: Seq<u8>, other: Seq<u8>)
    ensures
        claimed(s, recipient).accrued_of(recipient) == 0,
        other != recipient ==> claimed(s, recipient).accrued_of(other) == s.accrued_of(other),
{
}

/// A royalty as stored always names the platform recipient, keeps the
/// given recipients first and in order, adds at most the platform's share,
/// and adds up to at most 100%.
pub proof fn lemma_normalized_shape(platform: Seq<u8>, r: RoyaltyView)
    requires
        normalized(Some(platform), r) is Ok,
    ensures
        ({
            let n = normalized(Some(platform), r)->Ok_0;
            &&& names_recipient(n.recipients, platform)
            &&& bps_total(n.recipients) <= MAX_TOTAL_BPS
            &&& n.recipients.subrange(0, r.recipients.len() as int) == r.recipients
            &&& (n.recipients == r.recipients || n.recipients == r.recipients.push((platform, PLATFORM_SHARE_BPS)))
            &&& n.asset_address == r.asset_address
        }),
{
    let n = normalized(Some(platform), r)->Ok_0;
    if !names_recipient(r.recipients, platform) {
        let k = r.recipients.len() as int;
        assert(n.recipients[k].0 == platform);
        assert(n.recipients.subrange(0, k) =~= r.recipients);
    } else {
        assert(n.recipients.subrange(0, r.recipients.len() as int) =~= r.recipients);
    }
}

proof fn lemma_royalty_amount_monotone(p: int, b1: int, b2: int)
    requires
        0 < p,
        0 <= b1 <= b2,
    ensures
        royalty_amount(p, b1) <= royalty_amount(p, b2),
{
    assert(p * b1 <= p * b2) by (nonlinear_arith)
        requires
            0 < p,
            b1 <= b2,
    ;
    assert(p * b1 >= 0) by (nonlinear_arith)
        requires
            0 < p,
            0 <= b1,
    ;
    let x1 = cap_i128(cap_i128(p * b1) + 5_000);
    let x2 = cap_i128(cap_i128(p * b2) + 5_000);
    assert(x1 <= x2);
    assert(x1 / 10_000 <= x2 / 10_000) by (nonlinear_arith)
        requires
            0 <= x1 <= x2,
    ;
}

proof fn lemma_paid_through_monotone(p: int, rs: Seq<(Seq<u8>, u32)>, k: int)
    requires
        0 < p,
        0 <= k < rs.len(),
    ensures
        paid_through(p, rs, k) <= paid_through(p, rs, k + 1),
{
    lemma_bps_prefix_bounds(rs, k);
    lemma_royalty_amount_monotone(p, cap_u32(bps_prefix(rs, k)), cap_u32(bps_prefix(rs, k + 1)));
}

/// The transfers that settle a royalty payment add up to the royalty due on
/// the recipients' total, and each moves a positive amount: splitting by
/// cumulative rounding neither loses nor invents any of the royalty.
pub proof fn lemma_payouts_add_up(sale_price: int, rs: Seq<(Seq<u8>, u32)>, k: int)
    requires
        0 < sale_price <= max_sale_price(),
        0 <= k <= rs.len(),
    ensures
        payout_sum(payouts_through(sale_price, rs, k)) == paid_through(sale_price, rs, k),
        forall|i: int| 0 <= i < payouts_through(sale_price, rs, k).len()
            ==> #[trigger] payouts_through(sale_price, rs, k)[i].1 > 0,
    decreases k,
{
    if k == 0 {
        assert(sale_price * 0 == 0);
        assert(5_000int / 10_000 == 0);
        assert(paid_through(sale_price, rs, 0) == 0);
    } else {
        lemma_payouts_add_up(sale_price, rs, k - 1);
        lemma_paid_through_monotone(sale_price, rs, k - 1);
        crate::nft::royalty::lemma_paid_through_bounds(sale_price, rs, k);
        crate::nft::royalty::lemma_paid_through_bounds(sale_price, rs, k - 1);
        let before = payouts_through(sale_price, rs, k - 1);
        let a = share_of(sale_price, rs, k - 1);
        if a != 0 {
            let after = before.push((rs[k - 1].0, a as i128));
            assert(after.drop_last() =~= before);
            assert forall|i: int| 0 <= i < after.len() implies #[trigger] after[i].1 > 0 by {
                if i < before.len() {
                    assert(after[i] == before[i]);
                }
            }
        }
    }
}

/// The payouts of a royalty payment for `token_id` add up to exactly the
/// royalty that `calculate_royalty_amount` reports for the same sale.
pub proof fn lemma_payment_matches_quote(s: NftView, token_id: u32, sale_price: i128)
    requires
        0 < sale_price <= max_sale_price(),
        s.tokens.contains_key(token_id),
    ensures
        ({
            let rs = s.tokens[token_id].royalty.recipients;
            royalty_amount_result(s, token_id, sale_price)
                == Ok::<i128, Error>(payout_sum(payouts_through(sale_price as int, rs, rs.len() as int)) as i128)
        }),
{
    let rs = s.tokens[token_id].royalty.recipients;
    lemma_payouts_add_up(sale_price as int, rs, rs.len() as int);
    crate::nft::royalty::lemma_paid_through_bounds(sale_price as int, rs, rs.len() as int);
    lemma_bps_prefix_bounds(rs, rs.len() as int);
}

/// Burning removes the token and frees its clip for a new mint, counts one
/// token fewer in its collection, and leaves the total supply as it was.
pub proof fn lemma_burn_effects(s: NftView, token_id: u32)
    requires
        s.wf(),
        s.tokens.contains_key(token_id),
    ensures
        !burned(s, token_id).tokens.contains_key(token_id),
        !burned(s, token_id).clip_tokens.contains_key(s.tokens[token_id].clip_id),
        burned(s, token_id).collection_count(s.tokens[token_id].collection_id)
            == s.collection_count(s.tokens[token_id].collection_id) - 1,
        burned(s, token_id).minted_count() == s.minted_count(),
{
    let c = s.tokens[token_id].collection_id;
    assert(crate::nft::state::collection_members(s.tokens, c).contains(token_id));
    s.tokens.dom().lemma_len_filter(|i: u32| s.tokens[i].collection_id == c);
    assert(crate::nft::state::count_in(s.collection_counts, c)
        == crate::nft::state::collection_members(s.tokens, c).len());
}

/// Approving an operator for a token lets that operator move it.
pub proof fn lemma_approval_lets_spend(s: NftView, operator: Seq<u8>, token_id: u32)
    requires
        s.tokens.contains_key(token_id),
    ensures
        may_spend(approval_set(s, Some(operator), token_id), operator, s.tokens[token_id].owner, token_id),
{
}

/// An operator approved for all of an owner's tokens may approve any of
/// them and move any of them, while the contract is not paused.
pub proof fn lemma_operator_may_act(s: NftView, operator: Seq<u8>, token_id: u32)
    requires
        !s.paused,
        s.tokens.contains_key(token_id),
        s.is_operator(s.tokens[token_id].owner, operator),
    ensures
        approve_result(s, operator, token_id) == Ok::<(), Error>(()),
        may_spend(s, operator, s.tokens[token_id].owner, token_id),
{
}

/// In a well-formed state each collection's supply is the number of its
/// live tokens.
pub proof fn lemma_collection_supply_counts_live(s: NftView, c: u32)
    requires
        s.wf(),
    ensures
        s.collection_count(c) == crate::nft::state::collection_members(s.tokens, c).len(),
{
    assert(crate::nft::state::count_in(s.collection_counts, c)
        == crate::nft::state::collection_members(s.tokens, c).len());
}

// ── Royalty accrual ─────────────────────────────────────────────────────────

/// The total that `payouts` move to `who`.
pub open spec fn paid_to(payouts: Seq<(Seq<u8>, i128)>, who: Seq<u8>) -> int
    decreases payouts.len(),
{
    if payouts.len() == 0 {
        0
    } else {
        paid_to(payouts.drop_last(), who) + if payouts.last().0 == who { payouts.last().1 as int } else { 0int }
    }
}

/// The balance that `accrued` holds for `who`, 0 where it holds none.
pub open spec fn balance(accrued: Map<Seq<u8>, i128>, who: Seq<u8>) -> int {
    if accrued.contains_key(who) { accrued[who] as int } else { 0 }
}

/// `x`, capped at `i128::MAX`.
pub open spec fn at_most_i128_max(x: int) -> int {
    if x <= i128::MAX { x } else { i128::MAX as int }
}

proof fn lemma_paid_to_nonneg(payouts: Seq<(Seq<u8>, i128)>, who: Seq<u8>)
    requires
        forall|i: int| 0 <= i < payouts.len() ==> #[trigger] payouts[i].1 > 0,
    ensures
        paid_to(payouts, who) >= 0,
    decreases payouts.len(),
{
    if payouts.len() > 0 {
        let pre = payouts.drop_last();
        assert forall|i: int| 0 <= i < pre.len() implies #[trigger] pre[i].1 > 0 by {
            assert(pre[i] == payouts[i]);
        }
        lemma_paid_to_nonneg(pre, who);
        assert(payouts.last() == payouts[payouts.len() - 1]);
    }
}

/// Adding positive payouts to balances adds to each balance the sum of the
/// payouts to its holder, capped at `i128::MAX`.
proof fn lemma_accrue_all_adds(accrued: Map<Seq<u8>, i128>, payouts: Seq<(Seq<u8>, i128)>, who: Seq<u8>)
    requires
        forall|i: int| 0 <= i < payouts.len() ==> #[trigger] payouts[i].1 > 0,
    ensures
        balance(accrue_all(accrued, payouts), who)
            == at_most_i128_max(balance(accrued, who) + paid_to(payouts, who)),
    decreases payouts.len(),
{
    if payouts.len() > 0 {
        let pre = payouts.drop_last();
        assert forall|i: int| 0 <= i < pre.len() implies #[trigger] pre[i].1 > 0 by {
            assert(pre[i] == payouts[i]);
        }
        lemma_accrue_all_adds(accrued, pre, who);
        lemma_paid_to_nonneg(pre, who);
        assert(payouts.last() == payouts[payouts.len() - 1]);
        assert(payouts[payouts.len() - 1].1 > 0);
    }
}

/// The payouts of a successful royalty payment each move a positive amount.
proof fn lemma_payouts_positive(s: NftView, token_id: u32, sale_price: i128)
    requires
        pay_royalty_result(s, token_id, sale_price) is Ok,
    ensures
        ({
            let payouts = pay_royalty_result(s, token_id, sale_price)->Ok_0.1;
            forall|i: int| 0 <= i < payouts.len() ==> #[trigger] payouts[i].1 > 0
        }),
{
    let rs = s.tokens[token_id].royalty.recipients;
    if rs.len() > 0 {
        lemma_payouts_add_up(sale_price as int, rs, rs.len() as int);
    } else {
        assert(payouts_through(sale_price as int, rs, 0).len() == 0);
    }
}

/// A royalty payment adds to every address's accrued balance exactly what
/// the payment transfers to that address, the balance staying at most
/// `i128::MAX`: a payment never overwrites a balance, and an address it pays
/// nothing keeps its balance.
pub proof fn lemma_payment_accrues(s: NftView, token_id: u32, sale_price: i128, payer: Seq<u8>, who: Seq<u8>)
    requires
        pay_royalty_result(s, token_id, sale_price) is Ok,
    ensures
        ({
            let payouts = pay_royalty_result(s, token_id, sale_price)->Ok_0.1;
            &&& paid_to(payouts, who) >= 0
            &&& royalty_paid(s, token_id, payer, payouts).accrued_of(who) as int
                == at_most_i128_max(s.accrued_of(who) + paid_to(payouts, who))
        }),
{
    let payouts = pay_royalty_result(s, token_id, sale_price)->Ok_0.1;
    lemma_payouts_positive(s, token_id, sale_price);
    lemma_paid_to_nonneg(payouts, who);
    lemma_accrue_all_adds(s.accrued, payouts, who);
}

/// Two payments for the same sale of a token accrue both shares: each
/// address's balance grows by twice what one payment transfers to it
/// (staying at most `i128::MAX`), and the second payment transfers the same
/// as the first.
pub proof fn lemma_two_payments_accrue_both(
    s: NftView,
    token_id: u32,
    sale_price: i128,
    payer1: Seq<u8>,
    payer2: Seq<u8>,
    who: Seq<u8>,
)
    requires
        pay_royalty_result(s, token_id, sale_price) is Ok,
    ensures
        ({
            let payouts = pay_royalty_result(s, token_id, sale_price)->Ok_0.1;
            let s1 = royalty_paid(s, token_id, payer1, payouts);
            &&& pay_royalty_result(s1, token_id, sale_price) == pay_royalty_result(s, token_id, sale_price)
            &&& royalty_paid(s1, token_id, payer2, payouts).accrued_of(who) as int
                == at_most_i128_max(s.accrued_of(who) + 2 * paid_to(payouts, who))
        }),
{
    let payouts = pay_royalty_result(s, token_id, sale_price)->Ok_0.1;
    let s1 = royalty_paid(s, token_id, payer1, payouts);
    lemma_payment_accrues(s, token_id, sale_price, payer1, who);
    assert(pay_royalty_result(s1, token_id, sale_price) == pay_royalty_result(s, token_id, sale_price));
    lemma_payment_accrues(s1, token_id, sale_price, payer2, who);
}

// ── Blacklisted clips ───────────────────────────────────────────────────────

proof fn lemma_no_first_error_no_item_error(
    s: NftView,
    to: Seq<u8>,
    clips: Seq<u32>,
    uris: Seq<Seq<u8>>,
    sigs: Seq<Seq<u8>>,
    k: int,
)
    requires
        batch_first_error(s, to, clips, uris, sigs, k) is None,
    ensures
        forall|i: int| 0 <= i < k ==> #[trigger] batch_item_error(s, to, clips, uris, sigs, i) is None,
    decreases k,
{
    if k > 0 {
        lemma_no_first_error_no_item_error(s, to, clips, uris, sigs, k - 1);
    }
}

/// A successful batch mint mints no blacklisted clip.
pub proof fn lemma_batch_never_mints_blacklisted(
    s: NftView,
    to: Seq<u8>,
    clips: Seq<u32>,
    uris: Seq<Seq<u8>>,
    royalty: RoyaltyView,
    sigs: Seq<Seq<u8>>,
)
    requires
        batch_check(s, to, clips, uris, royalty, sigs) is Ok,
    ensures
        forall|i: int| 0 <= i < clips.len() ==> !s.blacklisted.contains(#[trigger] clips[i]),
{
    lemma_no_first_error_no_item_error(s, to, clips, uris, sigs, clips.len() as int);
    assert forall|i: int| 0 <= i < clips.len() implies !s.blacklisted.contains(#[trigger] clips[i]) by {
        assert(batch_item_error(s, to, clips, uris, sigs, i) is None);
    }
}

proof fn lemma_first_error_is_blacklist(
    s: NftView,
    to: Seq<u8>,
    clips: Seq<u32>,
    uris: Seq<Seq<u8>>,
    sigs: Seq<Seq<u8>>,
    k: int,
)
    requires
        0 <= k <= clips.len(),
        clips.no_duplicates(),
        forall|i: int| 0 <= i < clips.len() ==> #[trigger] clip_signature_result(s, to, clips[i], uris[i], sigs[i]) is Ok,
        forall|i: int| 0 <= i < clips.len() ==> !s.clip_tokens.contains_key(#[trigger] clips[i]),
    ensures
        (exists|j: int| 0 <= j < k && s.blacklisted.contains(#[trigger] clips[j]))
            ==> batch_first_error(s, to, clips, uris, sigs, k) == Some(Error::ClipBlacklisted),
        !(exists|j: int| 0 <= j < k && s.blacklisted.contains(#[trigger] clips[j]))
            ==> batch_first_error(s, to, clips, uris, sigs, k) is None,
    decreases k,
{
    if k > 0 {
        lemma_first_error_is_blacklist(s, to, clips, uris, sigs, k - 1);
        let i = k - 1;
        assert(clip_signature_result(s, to, clips[i], uris[i], sigs[i]) is Ok);
        assert(!s.clip_tokens.contains_key(clips[i]));
        assert(!clips.subrange(0, i).contains(clips[i])) by {
            if clips.subrange(0, i).contains(clips[i]) {
                let j = choose|j: int| 0 <= j < i && clips.subrange(0, i)[j] == clips[i];
                assert(clips[j] == clips[i]);
            }
        }
        if exists|j: int| 0 <= j < k && s.blacklisted.contains(#[trigger] clips[j]) {
            let j = choose|j: int| 0 <= j < k && s.blacklisted.contains(#[trigger] clips[j]);
            if j < k - 1 {
                assert(exists|j2: int| 0 <= j2 < k - 1 && s.blacklisted.contains(#[trigger] clips[j2]));
            }
        } else {
            assert(!s.blacklisted.contains(clips[i]));
        }
    }
}

/// A batch that names a blacklisted clip, and is otherwise mintable (not
/// paused, matching lengths, a valid royalty, accepted signatures, fresh
/// and distinct clips), fails with `ClipBlacklisted`.
pub proof fn lemma_batch_refuses_blacklisted(
    s: NftView,
    to: Seq<u8>,
    clips: Seq<u32>,
    uris: Seq<Seq<u8>>,
    royalty: RoyaltyView,
    sigs: Seq<Seq<u8>>,
    j: int,
)
    requires
        !s.paused,
        clips.len() == uris.len(),
        clips.len() == sigs.len(),
        normalized(s.platform_recipient, royalty) is Ok,
        clips.no_duplicates(),
        forall|i: int| 0 <= i < clips.len() ==> #[trigger] clip_signature_result(s, to, clips[i], uris[i], sigs[i]) is Ok,
        forall|i: int| 0 <= i < clips.len() ==> !s.clip_tokens.contains_key(#[trigger] clips[i]),
        0 <= j < clips.len(),
        s.blacklisted.contains(clips[j]),
    ensures
        batch_check(s, to, clips, uris, royalty, sigs) == Err::<RoyaltyView, Error>(Error::ClipBlacklisted),
{
    lemma_first_error_is_blacklist(s, to, clips, uris, sigs, clips.len() as int);
    assert(exists|j2: int| 0 <= j2 < clips.len() && s.blacklisted.contains(#[trigger] clips[j2]));
}

/// A successful mint is never of a blacklisted clip, and a mint of a
/// blacklisted clip that passes the earlier checks fails with
/// `ClipBlacklisted`.
pub proof fn lemma_mint_refuses_blacklisted(
    s: NftView,
    to: Seq<u8>,
    clip_id: u32,
    uri: Seq<u8>,
    royalty: RoyaltyView,
    sig: Seq<u8>,
)
    ensures
        mint_check(s, to, clip_id, uri, royalty, sig) is Ok ==> !s.blacklisted.contains(clip_id),
        !s.paused && clip_signature_result(s, to, clip_id, uri, sig) is Ok && !s.clip_tokens.contains_key(clip_id)
            && s.blacklisted.contains(clip_id)
            ==> mint_check(s, to, clip_id, uri, royalty, sig) == Err::<RoyaltyView, Error>(Error::ClipBlacklisted),
{
}

// ── Setting a royalty ───────────────────────────────────────────────────────

/// A royalty set by the admin is stored normalized: the token's royalty then
/// keeps the given recipients first and in order, names the platform
/// recipient, has the platform's share appended exactly when the given
/// royalty did not name the platform, keeps the asset, and adds up to at most
/// 100%.
pub proof fn lemma_set_royalty_stores_normalized(s: NftView, admin: Seq<u8>, token_id: u32, r: RoyaltyView)
    requires
        set_royalty_result(s, admin, token_id, r) is Ok,
    ensures
        s.platform_recipient is Some,
        ({
            let p = s.platform_recipient->0;
            let stored = royalty_set(s, token_id, set_royalty_result(s, admin, token_id, r)->Ok_0).tokens[token_id].royalty;
            &&& names_recipient(stored.recipients, p)
            &&& stored.recipients.subrange(0, r.recipients.len() as int) == r.recipients
            &&& names_recipient(r.recipients, p) ==> stored.recipients == r.recipients
            &&& !names_recipient(r.recipients, p) ==> stored.recipients.len() == r.recipients.len() + 1
                && stored.recipients[r.recipients.len() as int] == (p, PLATFORM_SHARE_BPS)
            &&& stored.asset_address == r.asset_address
            &&& bps_total(stored.recipients) <= MAX_TOTAL_BPS
        }),
{
    let p = s.platform_recipient->0;
    lemma_normalized_shape(p, r);
    let n = normalized(Some(p), r)->Ok_0;
    if !names_recipient(r.recipients, p) {
        assert(n.recipients == r.recipients.push((p, PLATFORM_SHARE_BPS)));
    }
}

// ── Approvals ───────────────────────────────────────────────────────────────

/// A spender moves a token only if the owner currently has it approved for
/// all of the owner's tokens (the stored flag is true) or it is the address
/// approved for that token.
pub proof fn lemma_transfer_from_needs_approval(s: NftView, spender: Seq<u8>, from: Seq<u8>, token_id: u32)
    requires
        transfer_from_result(s, spender, from, token_id) is Ok,
    ensures
        !s.paused,
        s.tokens.contains_key(token_id),
        s.tokens[token_id].owner == from,
        !s.tokens[token_id].is_soulbound,
        (s.operators.contains_key((from, spender)) && s.operators[(from, spender)] == true)
            || (s.approved.contains_key(token_id) && s.approved[token_id] == spender),
{
}

/// After the owner withdraws an operator's approval for all its tokens, that
/// operator can no longer move a token of the owner's that is not approved
/// to it on its own.
pub proof fn lemma_revoked_operator_cannot_spend(s: NftView, owner: Seq<u8>, operator: Seq<u8>, to: Seq<u8>, token_id: u32)
    requires
        !s.paused,
        s.tokens.contains_key(token_id),
        s.tokens[token_id].owner == owner,
        !(s.approved.contains_key(token_id) && s.approved[token_id] == operator),
    ensures
        ({
            let s1 = (NftView { operators: s.operators.insert((owner, operator), false), ..s }).emit(
                EventView::ApprovalForAll { owner, operator, approved: false },
            );
            transfer_from_result(s1, operator, owner, token_id) == Err::<(), Error>(Error::Unauthorized)
        }),
{
}

/// Approving `Some(op)` for a token makes `op` its approved address;
/// approving `None` leaves no approved address for it. Either way the
/// approvals of the other tokens stay as they were.
pub proof fn lemma_approve_sets_or_clears(s: NftView, caller: Seq<u8>, op: Option<Seq<u8>>, token_id: u32, other: u32)
    requires
        approve_result(s, caller, token_id) is Ok,
        other != token_id,
    ensures
        ({
            let s1 = approval_set(s, op, token_id);
            &&& op is None ==> !s1.approved.contains_key(token_id)
            &&& op is Some ==> s1.approved.contains_key(token_id) && s1.approved[token_id] == op->0
            &&& s1.approved.contains_key(other) == s.approved.contains_key(other)
            &&& s.approved.contains_key(other) ==> s1.approved[other] == s.approved[other]
            &&& s1.tokens == s.tokens
            &&& s1.operators == s.operators
        }),
{
}

/// Once the owner clears a token's approval, the address that was approved
/// for it can no longer move it unless it is an operator of the owner.
pub proof fn lemma_revoked_approval_cannot_spend(s: NftView, caller: Seq<u8>, spender: Seq<u8>, token_id: u32)
    requires
        approve_result(s, caller, token_id) is Ok,
        !(s.operators.contains_key((s.tokens[token_id].owner, spender))
            && s.operators[(s.tokens[token_id].owner, spender)] == true),
    ensures
        transfer_from_result(approval_set(s, None, token_id), spender, s.tokens[token_id].owner, token_id)
            == Err::<(), Error>(Error::Unauthorized),
{
}

/// Only the owner of a token, or an address whose approval for all the
/// owner's tokens is currently set to true, may approve for it.
pub proof fn lemma_approve_needs_owner_or_operator(s: NftView, caller: Seq<u8>, token_id: u32)
    requires
        approve_result(s, caller, token_id) is Ok,
    ensures
        !s.paused,
        s.tokens.contains_key(token_id),
        caller == s.tokens[token_id].owner
            || (s.operators.contains_key((s.tokens[token_id].owner, caller))
                && s.operators[(s.tokens[token_id].owner, caller)] == true),
{
}

} // verus!
