//! Approvals, transfers, burning, and the owner's metadata update.
use vstd::prelude::*;
use crate::address::{Address, opt_address_view};
use crate::error::Error;
use crate::table::OperatorKey;
use crate::nft::events::{ContractEvent, EventView, ApprovalEvent, ApprovalForAllEvent, TransferEvent, BurnEvent};
use crate::nft::state::{ClipsNftContract, NftView, count_in, collection_members, lemma_members_replace, lemma_members_remove};
use crate::nft::types::{TokenId, TokenView, copy_bytes};

verus! {

broadcast use vstd::std_specs::hash::group_hash_axioms;

/// The outcome of `approve` by `caller` for `token_id`: the owner, or an
/// operator of the owner, may approve.
pub open spec fn approve_result(s: NftView, caller: Seq<u8>, token_id: u32) -> Result<(), Error> {
    if s.paused {
        Err(Error::ContractPaused)
    } else if !s.tokens.contains_key(token_id) {
        Err(Error::InvalidTokenId)
    } else if caller != s.tokens[token_id].owner && !s.is_operator(s.tokens[token_id].owner, caller) {
        Err(Error::NotAuthorizedToApprove)
    } else {
        Ok(())
    }
}

/// The state after `operator` is approved for `token_id`, or, for `None`,
/// after the approval of `token_id` is cleared.
pub open spec fn approval_set(s: NftView, operator: Option<Seq<u8>>, token_id: u32) -> NftView {
    match operator {
        Some(op) => NftView { approved: s.approved.insert(token_id, op), ..s }.emit(
            EventView::Approve { owner: s.tokens[token_id].owner, operator: op, token_id },
        ),
        None => NftView { approved: s.approved.remove(token_id), ..s },
    }
}

/// The outcome of `transfer` of `token_id` by `from`.
pub open spec fn transfer_result(s: NftView, from: Seq<u8>, token_id: u32) -> Result<(), Error> {
    if s.paused {
        Err(Error::ContractPaused)
    } else if !s.tokens.contains_key(token_id) {
        Err(Error::InvalidTokenId)
    } else if s.tokens[token_id].owner != from {
        Err(Error::Unauthorized)
    } else if s.tokens[token_id].is_soulbound {
        Err(Error::SoulboundTransferBlocked)
    } else {
        Ok(())
    }
}

/// Whether `spender` may move `token_id` on behalf of `from`: it is an
/// operator of `from`, or the address approved for the token.
pub open spec fn may_spend(s: NftView, spender: Seq<u8>, from: Seq<u8>, token_id: u32) -> bool {
    s.is_operator(from, spender) || (s.approved.contains_key(token_id) && s.approved[token_id] == spender)
}

/// The outcome of `transfer_from` of `token_id` from `from` by `spender`.
pub open spec fn transfer_from_result(s: NftView, spender: Seq<u8>, from: Seq<u8>, token_id: u32) -> Result<(), Error> {
    if s.paused {
        Err(Error::ContractPaused)
    } else if !s.tokens.contains_key(token_id) {
        Err(Error::InvalidTokenId)
    } else if s.tokens[token_id].owner != from {
        Err(Error::Unauthorized)
    } else if !may_spend(s, spender, from, token_id) {
        Err(Error::Unauthorized)
    } else if s.tokens[token_id].is_soulbound {
        Err(Error::SoulboundTransferBlocked)
    } else {
        Ok(())
    }
}

/// The state after `token_id` moves from `from` to `to`: its approval is
/// cleared.
pub open spec fn transferred(s: NftView, from: Seq<u8>, to: Seq<u8>, token_id: u32) -> NftView {
    NftView {
        tokens: s.tokens.insert(token_id, TokenView { owner: to, ..s.tokens[token_id] }),
        approved: s.approved.remove(token_id),
        ..s
    }.emit(EventView::Transfer { token_id, from, to })
}

/// The outcome of `burn` of `token_id` by `owner`.
pub open spec fn burn_result(s: NftView, owner: Seq<u8>, token_id: u32) -> Result<(), Error> {
    if !s.tokens.contains_key(token_id) {
        Err(Error::InvalidTokenId)
    } else if s.tokens[token_id].owner != owner {
        Err(Error::Unauthorized)
    } else {
        Ok(())
    }
}

/// The state after `token_id` is burnt: the token and its clip's record are
/// gone and its collection counts one token fewer.
pub open spec fn burned(s: NftView, token_id: u32) -> NftView {
    let t = s.tokens[token_id];
    let c = t.collection_id;
    NftView {
        tokens: s.tokens.remove(token_id),
        clip_tokens: s.clip_tokens.remove(t.clip_id),
        collection_counts: if s.collection_count(c) > 0 {
            s.collection_counts.insert(c, (s.collection_count(c) - 1) as u32)
        } else {
            s.collection_counts
        },
        ..s
    }.emit(EventView::Burn { owner: t.owner, token_id, clip_id: t.clip_id })
}

/// The outcome of `set_token_uri` by `owner`.
pub open spec fn set_uri_result(s: NftView, owner: Seq<u8>, token_id: u32) -> Result<(), Error> {
    burn_result(s, owner, token_id)
}

impl ClipsNftContract {
    pub fn approve(&mut self, caller: &Address, operator: Option<Address>, token_id: TokenId) -> (r: Result<(), Error>)
        ensures
            r == approve_result(old(self)@, caller@, token_id),
            r is Ok ==> final(self)@ == approval_set(old(self)@, opt_address_view(operator), token_id),
            r is Err ==> final(self)@ == old(self)@,
            old(self).wf() ==> final(self).wf(),
    {
        self.require_not_paused()?;
        let owner = self.owner_of(token_id)?;
        if !caller.same_as(&owner) && !self.is_approved_for_all(&owner, caller) {
            return Err(Error::NotAuthorizedToApprove);
        }
        let ghost s0 = self@;
        match operator {
            Some(op) => {
                let ghost opv = op@;
                self.approved.insert(token_id, op.duplicate());
                proof {
                    assert(self@.approved =~= s0.approved.insert(token_id, opv));
                }
                self.emit(ContractEvent::Approve(ApprovalEvent { owner, operator: op, token_id }));
            },
            None => {
                self.approved.remove(&token_id);
                proof {
                    assert(self@.approved =~= s0.approved.remove(token_id));
                }
            },
        }
        Ok(())
    }

    pub fn set_approval_for_all(&mut self, caller: &Address, operator: &Address, approved: bool) -> (r: Result<(), Error>)
        ensures
            old(self)@.paused ==> r == Err::<(), Error>(Error::ContractPaused) && final(self)@ == old(self)@,
            !old(self)@.paused ==> r == Ok::<(), Error>(()) && final(self)@ == (NftView {
                operators: old(self)@.operators.insert((caller@, operator@), approved),
                ..old(self)@
            }).emit(EventView::ApprovalForAll { owner: caller@, operator: operator@, approved }),
            old(self).wf() ==> final(self).wf(),
    {
        self.require_not_paused()?;
        self.operators.set(OperatorKey { owner: caller.duplicate(), operator: operator.duplicate() }, approved);
        self.emit(
            ContractEvent::ApprovalForAll(ApprovalForAllEvent {
                owner: caller.duplicate(),
                operator: operator.duplicate(),
                approved,
            }),
        );
        Ok(())
    }

    /// Move `token_id` to `to` and clear its approval.
    fn move_token(&mut self, from: &Address, to: &Address, token_id: TokenId)
        requires
            old(self)@.tokens.contains_key(token_id),
        ensures
            final(self)@ == transferred(old(self)@, from@, to@, token_id),
            old(self).wf() ==> final(self).wf(),
    {
        let ghost s0 = self@;
        self.approved.remove(&token_id);
        proof {
            assert(self@.approved =~= s0.approved.remove(token_id));
        }
        let ghost s1 = self@;
        let mut data = self.take_token(token_id);
        let ghost t0 = data@;
        data.owner = to.duplicate();
        self.store_token(token_id, data);
        proof {
            assert(self@.tokens =~= s0.tokens.insert(token_id, TokenView { owner: to@, ..t0 }));
        }
        self.emit(ContractEvent::Transfer(TransferEvent { token_id, from: from.duplicate(), to: to.duplicate() }));
        proof {
            if s0.wf() {
                lemma_members_replace(s0.tokens, token_id, TokenView { owner: to@, ..t0 });
                assert(self@.wf()) by {
                    assert forall|id: u32| #[trigger] self@.tokens.contains_key(id) implies {
                        &&& self@.clip_tokens.contains_key(self@.tokens[id].clip_id)
                        &&& self@.clip_tokens[self@.tokens[id].clip_id] == id
                    } by {
                        assert(s0.tokens.contains_key(id));
                    }
                }
            }
        }
    }

    pub fn transfer(&mut self, from: &Address, to: &Address, token_id: TokenId) -> (r: Result<(), Error>)
        ensures
            r == transfer_result(old(self)@, from@, token_id),
            r is Ok ==> final(self)@ == transferred(old(self)@, from@, to@, token_id),
            r is Err ==> final(self)@ == old(self)@,
            old(self).wf() ==> final(self).wf(),
    {
        self.require_not_paused()?;
        let data = self.load_token(token_id)?;
        if !from.same_as(&data.owner) {
            return Err(Error::Unauthorized);
        }
        if data.is_soulbound {
            return Err(Error::SoulboundTransferBlocked);
        }
        self.move_token(from, to, token_id);
        Ok(())
    }

    pub fn transfer_from(&mut self, spender: &Address, from: &Address, to: &Address, token_id: TokenId) -> (r: Result<(), Error>)
        ensures
            r == transfer_from_result(old(self)@, spender@, from@, token_id),
            r is Ok ==> final(self)@ == transferred(old(self)@, from@, to@, token_id),
            r is Err ==> final(self)@ == old(self)@,
            old(self).wf() ==> final(self).wf(),
    {
        self.require_not_paused()?;
        let data = self.load_token(token_id)?;
        if !from.same_as(&data.owner) {
            return Err(Error::Unauthorized);
        }
        let soulbound = data.is_soulbound;
        let approved_for_all = self.is_approved_for_all(from, spender);
        let approved_op = self.get_approved(token_id);
        let is_approved_op = match &approved_op {
            Some(a) => a.same_as(spender),
            None => false,
        };
        if !approved_for_all && !is_approved_op {
            return Err(Error::Unauthorized);
        }
        if soulbound {
            return Err(Error::SoulboundTransferBlocked);
        }
        self.move_token(from, to, token_id);
        Ok(())
    }

    pub fn burn(&mut self, owner: &Address, token_id: TokenId) -> (r: Result<(), Error>)
        ensures
            r == burn_result(old(self)@, owner@, token_id),
            r is Ok ==> final(self)@ == burned(old(self)@, token_id),
            r is Err ==> final(self)@ == old(self)@,
            old(self).wf() ==> final(self).wf(),
    {
        let data0 = self.load_token(token_id)?;
        if !owner.same_as(&data0.owner) {
            return Err(Error::Unauthorized);
        }
        let ghost s0 = self@;
        let data = self.take_token(token_id);
        let ghost t = data@;
        self.clip_tokens.remove(&data.clip_id);
        let col = data.collection_id;
        let col_count = self.collection_supply(col);
        if col_count > 0 {
            self.collection_counts.insert(col, col_count - 1);
        }
        let clip_id = data.clip_id;
        self.emit(ContractEvent::Burn(BurnEvent { owner: data.owner, token_id, clip_id }));
        proof {
            assert(self@.tokens =~= s0.tokens.remove(token_id));
            assert(self@.clip_tokens =~= s0.clip_tokens.remove(t.clip_id));
            assert(self@ == burned(s0, token_id));
            if s0.wf() {
                assert(self@.wf()) by {
                    assert forall|c: u32| #[trigger] count_in(self@.collection_counts, c) == collection_members(self@.tokens, c).len() by {
                        lemma_members_remove(s0.tokens, token_id, c);
                        assert(count_in(s0.collection_counts, c) == collection_members(s0.tokens, c).len());
                        if c == t.collection_id {
                            assert(collection_members(s0.tokens, c).contains(token_id));
                        }
                    }
                    lemma_members_remove(s0.tokens, token_id, t.collection_id);
                    assert forall|id: u32| #[trigger] self@.tokens.contains_key(id) implies {
                        &&& self@.clip_tokens.contains_key(self@.tokens[id].clip_id)
                        &&& self@.clip_tokens[self@.tokens[id].clip_id] == id
                    } by {
                        assert(s0.tokens.contains_key(id));
                        assert(s0.clip_tokens[s0.tokens[id].clip_id] == id);
                    }
                    assert forall|c: u32| #[trigger] self@.clip_tokens.contains_key(c) implies {
                        &&& self@.tokens.contains_key(self@.clip_tokens[c])
                        &&& self@.tokens[self@.clip_tokens[c]].clip_id == c
                    } by {
                        assert(s0.clip_tokens.contains_key(c));
                    }
                    assert forall|c: u32| #[trigger] self@.collection_counts.contains_key(c)
                        implies self@.collection_counts[c] < self@.next_token_id by {
                        assert(s0.collection_counts.contains_key(c));
                    }
                }
            }
        }
        Ok(())
    }

    pub fn set_token_uri(&mut self, owner: &Address, token_id: TokenId, uri: Vec<u8>) -> (r: Result<(), Error>)
        ensures
            r == set_uri_result(old(self)@, owner@, token_id),
            r is Ok ==> final(self)@ == (NftView {
                tokens: old(self)@.tokens.insert(token_id, TokenView { metadata_uri: uri@, ..old(self)@.tokens[token_id] }),
                ..old(self)@
            }),
            r is Err ==> final(self)@ == old(self)@,
            old(self).wf() ==> final(self).wf(),
    {
        let data0 = self.load_token(token_id)?;
        if !data0.owner.same_as(owner) {
            return Err(Error::Unauthorized);
        }
        let ghost s0 = self@;
        let mut data = self.take_token(token_id);
        let ghost t0 = data@;
        data.metadata_uri = uri;
        self.store_token(token_id, data);
        proof {
            assert(self@.tokens =~= s0.tokens.insert(token_id, TokenView { metadata_uri: data@.metadata_uri, ..t0 }));
            if s0.wf() {
                lemma_members_replace(s0.tokens, token_id, TokenView { metadata_uri: data@.metadata_uri, ..t0 });
                assert(self@.wf()) by {
                    assert forall|id: u32| #[trigger] self@.tokens.contains_key(id) implies {
                        &&& self@.clip_tokens.contains_key(self@.tokens[id].clip_id)
                        &&& self@.clip_tokens[self@.tokens[id].clip_id] == id
                    } by {
                        assert(s0.tokens.contains_key(id));
                    }
                }
            }
        }
        Ok(())
    }
}

} // verus!
