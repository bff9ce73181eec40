//! The contract state, its view, its well-formedness, and the read-only
//! entry points.
use vstd::prelude::*;
use std::collections::{HashMap, HashSet};
use crate::address::{Address, opt_address_view, duplicate_opt_address};
use crate::table::{Table, OperatorKey};
use crate::nft::types::{TokenId, TokenData, TokenView, Royalty, copy_bytes};
use crate::nft::events::{ContractEvent, EventView};
use crate::error::Error;

verus! {

broadcast use vstd::std_specs::hash::group_hash_axioms;

pub const VERSION: u32 = 1;

/// 24-hour timelock in ledgers (≈5 s/ledger → 17 280 ledgers ≈ 24 h)
pub const PAUSE_TIMELOCK_LEDGERS: u32 = 17_280;

/// Approximate CPU instructions consumed by a single mint (benchmarked).
pub const GAS_MINT: u64 = 2_800_000;
/// Approximate CPU instructions consumed by a single transfer (benchmarked).
pub const GAS_TRANSFER: u64 = 1_200_000;

/// The most token ids that `tokens_of_owner` returns.
pub const MAX_TOKENS_LISTED: u32 = 1000;

/// The state of a clips NFT contract.
pub struct ClipsNftContract {
    pub(crate) admin: Option<Address>,
    pub(crate) signer: Option<[u8; 32]>,
    pub(crate) platform_recipient: Option<Address>,
    pub(crate) paused: bool,
    pub(crate) pause_requested_at: u32,
    pub(crate) name: Option<Vec<u8>>,
    pub(crate) symbol: Option<Vec<u8>>,
    pub(crate) next_token_id: u32,
    pub(crate) tokens: HashMap<u32, TokenData>,
    pub(crate) clip_tokens: HashMap<u32, u32>,
    pub(crate) collection_counts: HashMap<u32, u32>,
    pub(crate) blacklisted: HashSet<u32>,
    pub(crate) approved: HashMap<u32, Address>,
    pub(crate) operators: Table<OperatorKey, bool>,
    pub(crate) accrued: Table<Address, i128>,
    pub(crate) events: Vec<ContractEvent>,
}

/// The contract state as mathematical values.
pub struct NftView {
    pub admin: Option<Seq<u8>>,
    pub signer: Option<Seq<u8>>,
    pub platform_recipient: Option<Seq<u8>>,
    pub paused: bool,
    pub pause_requested_at: u32,
    pub name: Option<Seq<u8>>,
    pub symbol: Option<Seq<u8>>,
    pub next_token_id: u32,
    pub tokens: Map<u32, TokenView>,
    /// clip id -> the token minted for it
    pub clip_tokens: Map<u32, u32>,
    /// collection id -> number of tokens counted in it
    pub collection_counts: Map<u32, u32>,
    pub blacklisted: Set<u32>,
    /// token id -> the address approved to move it
    pub approved: Map<u32, Seq<u8>>,
    /// (owner, operator) -> whether operator may move all of owner's tokens
    pub operators: Map<(Seq<u8>, Seq<u8>), bool>,
    /// recipient -> royalties accrued and not yet claimed
    pub accrued: Map<Seq<u8>, i128>,
    /// the events emitted and not yet taken, oldest first
    pub events: Seq<EventView>,
}

pub open spec fn opt_bytes_view(b: Option<Vec<u8>>) -> Option<Seq<u8>> {
    match b {
        Some(v) => Some(v@),
        None => None,
    }
}

pub open spec fn opt_key_view(k: Option<[u8; 32]>) -> Option<Seq<u8>> {
    match k {
        Some(v) => Some(v@),
        None => None,
    }
}

impl View for ClipsNftContract {
    type V = NftView;

    open(crate) spec fn view(&self) -> NftView {
        NftView {
            admin: opt_address_view(self.admin),
            signer: opt_key_view(self.signer),
            platform_recipient: opt_address_view(self.platform_recipient),
            paused: self.paused,
            pause_requested_at: self.pause_requested_at,
            name: opt_bytes_view(self.name),
            symbol: opt_bytes_view(self.symbol),
            next_token_id: self.next_token_id,
            tokens: self.tokens@.map_values(|t: TokenData| t@),
            clip_tokens: self.clip_tokens@,
            collection_counts: self.collection_counts@,
            blacklisted: self.blacklisted@,
            approved: self.approved@.map_values(|a: Address| a@),
            operators: self.operators.view(),
            accrued: self.accrued.view(),
            events: self.events@.map_values(|e: ContractEvent| e@),
        }
    }
}

impl NftView {
    /// The invariant that every reachable state keeps: before initialization
    /// no signer is set and nothing is minted; token ids are below the next
    /// id to hand out; each live token and the clip it was minted for point
    /// at each other; and each collection counts exactly its live tokens,
    /// fewer than have been minted in all.
    pub open spec fn wf(self) -> bool {
        &&& self.admin is None ==> {
            &&& self.signer is None
            &&& self.next_token_id == 1
            &&& self.tokens.is_empty()
            &&& self.clip_tokens.is_empty()
            &&& self.collection_counts.is_empty()
        }
        &&& self.next_token_id >= 1
        &&& forall|id: u32| #[trigger] self.tokens.contains_key(id) ==> 1 <= id < self.next_token_id
        &&& forall|id: u32| #[trigger] self.tokens.contains_key(id) ==> {
            &&& self.clip_tokens.contains_key(self.tokens[id].clip_id)
            &&& self.clip_tokens[self.tokens[id].clip_id] == id
        }
        &&& forall|c: u32| #[trigger] self.clip_tokens.contains_key(c) ==> {
            &&& self.tokens.contains_key(self.clip_tokens[c])
            &&& self.tokens[self.clip_tokens[c]].clip_id == c
        }
        &&& forall|c: u32| #[trigger] self.collection_counts.contains_key(c)
            ==> self.collection_counts[c] < self.next_token_id
        &&& self.tokens.dom().finite()
        &&& forall|c: u32| #[trigger] count_in(self.collection_counts, c) == collection_members(self.tokens, c).len()
    }

    /// The number of tokens counted in collection `c`.
    pub open spec fn collection_count(self, c: u32) -> u32 {
        count_in(self.collection_counts, c)
    }

    /// Whether `operator` may act on all of `owner`'s tokens.
    pub open spec fn is_operator(self, owner: Seq<u8>, operator: Seq<u8>) -> bool {
        self.operators.contains_key((owner, operator)) && self.operators[(owner, operator)]
    }

    /// The royalties accrued to `recipient` and not yet claimed.
    pub open spec fn accrued_of(self, recipient: Seq<u8>) -> i128 {
        if self.accrued.contains_key(recipient) { self.accrued[recipient] } else { 0 }
    }

    /// This state with `e` appended to its events.
    pub open spec fn emit(self, e: EventView) -> NftView {
        NftView { events: self.events.push(e), ..self }
    }

    /// The number of tokens minted so far, burnt ones included.
    pub open spec fn minted_count(self) -> u32 {
        if self.next_token_id >= 1 { (self.next_token_id - 1) as u32 } else { 0 }
    }
}

/// The count that `counts` holds for collection `c`, 0 where it holds none.
pub open spec fn count_in(counts: Map<u32, u32>, c: u32) -> u32 {
    if counts.contains_key(c) { counts[c] } else { 0 }
}

/// The live tokens of collection `c`.
pub open spec fn collection_members(tokens: Map<u32, TokenView>, c: u32) -> Set<u32> {
    tokens.dom().filter(|id: u32| tokens[id].collection_id == c)
}

pub proof fn lemma_members_insert_fresh(tokens: Map<u32, TokenView>, id: u32, t: TokenView, c: u32)
    requires
        tokens.dom().finite(),
        !tokens.contains_key(id),
    ensures
        tokens.insert(id, t).dom().finite(),
        collection_members(tokens.insert(id, t), c).len() == collection_members(tokens, c).len()
            + (if t.collection_id == c { 1int } else { 0int }),
{
    let before = collection_members(tokens, c);
    let after = collection_members(tokens.insert(id, t), c);
    tokens.dom().lemma_len_filter(|i: u32| tokens[i].collection_id == c);
    if t.collection_id == c {
        assert(after =~= before.insert(id));
    } else {
        assert(after =~= before);
    }
}

pub proof fn lemma_members_remove(tokens: Map<u32, TokenView>, id: u32, c: u32)
    requires
        tokens.dom().finite(),
        tokens.contains_key(id),
    ensures
        tokens.remove(id).dom().finite(),
        collection_members(tokens.remove(id), c).len() == collection_members(tokens, c).len()
            - (if tokens[id].collection_id == c { 1int } else { 0int }),
{
    let before = collection_members(tokens, c);
    let after = collection_members(tokens.remove(id), c);
    tokens.dom().lemma_len_filter(|i: u32| tokens[i].collection_id == c);
    if tokens[id].collection_id == c {
        assert(after =~= before.remove(id));
    } else {
        assert(after =~= before);
    }
}

pub proof fn lemma_members_replace(tokens: Map<u32, TokenView>, id: u32, t: TokenView)
    requires
        tokens.dom().finite(),
        tokens.contains_key(id),
        t.collection_id == tokens[id].collection_id,
    ensures
        tokens.insert(id, t).dom().finite(),
        forall|c: u32| #[trigger] collection_members(tokens.insert(id, t), c) == collection_members(tokens, c),
{
    assert(tokens.insert(id, t).dom() =~= tokens.dom());
    assert forall|c: u32| #[trigger] collection_members(tokens.insert(id, t), c) == collection_members(tokens, c) by {
        assert(collection_members(tokens.insert(id, t), c) =~= collection_members(tokens, c));
    }
}

/// The bytes of `ClipCash Clips`, the name used until one is set.
pub open spec fn default_name() -> Seq<u8> {
    seq![67u8, 108u8, 105u8, 112u8, 67u8, 97u8, 115u8, 104u8, 32u8, 67u8, 108u8, 105u8, 112u8, 115u8]
}

/// The bytes of `CLIP`, the symbol used until one is set.
pub open spec fn default_symbol() -> Seq<u8> {
    seq![67u8, 76u8, 73u8, 80u8]
}

/// The ids in `[lo, hi)`, ascending, of the tokens that `owner` holds.
pub open spec fn owned_ids(tokens: Map<u32, TokenView>, owner: Seq<u8>, lo: int, hi: int) -> Seq<u32>
    decreases hi - lo,
{
    if hi <= lo {
        Seq::empty()
    } else {
        let rest = owned_ids(tokens, owner, lo, hi - 1);
        let id = (hi - 1) as u32;
        if tokens.contains_key(id) && tokens[id].owner == owner {
            rest.push(id)
        } else {
            rest
        }
    }
}

pub proof fn lemma_owned_ids_prefix(tokens: Map<u32, TokenView>, owner: Seq<u8>, lo: int, mid: int, hi: int)
    requires
        lo <= mid <= hi,
    ensures
        owned_ids(tokens, owner, lo, mid).len() <= owned_ids(tokens, owner, lo, hi).len(),
        owned_ids(tokens, owner, lo, mid) =~= owned_ids(tokens, owner, lo, hi).subrange(
            0,
            owned_ids(tokens, owner, lo, mid).len() as int,
        ),
    decreases hi - mid,
{
    if mid < hi {
        lemma_owned_ids_prefix(tokens, owner, lo, mid, hi - 1);
    }
}

/// The ids that `tokens_of_owner` lists: the first `MAX_TOKENS_LISTED` ids,
/// ascending, among those below the next id that `owner` holds.
pub open spec fn listed_tokens(s: NftView, owner: Seq<u8>) -> Seq<u32> {
    let all = owned_ids(s.tokens, owner, 1, s.next_token_id as int);
    if all.len() <= MAX_TOKENS_LISTED { all } else { all.subrange(0, MAX_TOKENS_LISTED as int) }
}

impl ClipsNftContract {
    pub open spec fn wf(&self) -> bool {
        self@.wf()
    }

    /// A contract that has not been initialized: nothing is stored.
    pub fn new() -> (c: ClipsNftContract)
        ensures
            c@ == (NftView {
                admin: None,
                signer: None,
                platform_recipient: None,
                paused: false,
                pause_requested_at: 0,
                name: None,
                symbol: None,
                next_token_id: 1,
                tokens: Map::empty(),
                clip_tokens: Map::empty(),
                collection_counts: Map::empty(),
                blacklisted: Set::empty(),
                approved: Map::empty(),
                operators: Map::empty(),
                accrued: Map::empty(),
                events: Seq::empty(),
            }),
            c.wf(),
    {
        let c = ClipsNftContract {
            admin: None,
            signer: None,
            platform_recipient: None,
            paused: false,
            pause_requested_at: 0,
            name: None,
            symbol: None,
            next_token_id: 1,
            tokens: HashMap::new(),
            clip_tokens: HashMap::new(),
            collection_counts: HashMap::new(),
            blacklisted: HashSet::new(),
            approved: HashMap::new(),
            operators: Table::new(),
            accrued: Table::new(),
            events: Vec::new(),
        };
        assert(c@.tokens =~= Map::empty());
        assert(c@.clip_tokens =~= Map::empty());
        assert(c@.collection_counts =~= Map::empty());
        assert forall|col: u32| #[trigger] count_in(c@.collection_counts, col) == collection_members(c@.tokens, col).len() by {
            assert(collection_members(c@.tokens, col) =~= Set::empty());
        }
        assert(c@.approved =~= Map::empty());
        assert(c@.events =~= Seq::empty());
        c
    }

    /// The events emitted and not yet taken, oldest first.
    pub fn events(&self) -> (r: &Vec<ContractEvent>)
        ensures
            r@.map_values(|e: ContractEvent| e@) == self@.events,
    {
        &self.events
    }

    /// Hand over the events emitted so far, oldest first, leaving none.
    pub fn take_events(&mut self) -> (r: Vec<ContractEvent>)
        ensures
            r@.map_values(|e: ContractEvent| e@) == old(self)@.events,
            final(self)@ == (NftView { events: Seq::empty(), ..old(self)@ }),
    {
        let mut r: Vec<ContractEvent> = Vec::new();
        std::mem::swap(&mut r, &mut self.events);
        assert(self@.events =~= Seq::<EventView>::empty());
        r
    }

    pub fn version(&self) -> (r: u32)
        ensures
            r == VERSION,
    {
        VERSION
    }

    pub fn get_signer(&self) -> (r: Option<[u8; 32]>)
        ensures
            opt_key_view(r) == self@.signer,
    {
        self.signer
    }

    pub fn is_paused(&self) -> (r: bool)
        ensures
            r == self@.paused,
    {
        self.paused
    }

    /// Returns the ledger sequence at which the current pause was requested,
    /// or 0 if the contract has never been paused.
    pub fn pause_requested_at(&self) -> (r: u32)
        ensures
            r == self@.pause_requested_at,
    {
        self.pause_requested_at
    }

    pub fn name(&self) -> (r: Vec<u8>)
        ensures
            r@ == (match self@.name {
                Some(n) => n,
                None => default_name(),
            }),
    {
        match &self.name {
            Some(n) => copy_bytes(n),
            None => {
                let r = vec![67u8, 108u8, 105u8, 112u8, 67u8, 97u8, 115u8, 104u8, 32u8, 67u8, 108u8, 105u8, 112u8, 115u8];
                assert(r@ =~= default_name());
                r
            },
        }
    }

    pub fn symbol(&self) -> (r: Vec<u8>)
        ensures
            r@ == (match self@.symbol {
                Some(n) => n,
                None => default_symbol(),
            }),
    {
        match &self.symbol {
            Some(n) => copy_bytes(n),
            None => {
                let r = vec![67u8, 76u8, 73u8, 80u8];
                assert(r@ =~= default_symbol());
                r
            },
        }
    }

    /// Record that `e` was emitted.
    pub(crate) fn emit(&mut self, e: ContractEvent)
        ensures
            final(self)@ == old(self)@.emit(e@),
    {
        let ghost ev = e@;
        self.events.push(e);
        assert(self@.events =~= old(self)@.events.push(ev));
    }

    /// Store `data` as token `token_id`.
    pub(crate) fn store_token(&mut self, token_id: TokenId, data: TokenData)
        ensures
            final(self)@ == (NftView { tokens: old(self)@.tokens.insert(token_id, data@), ..old(self)@ }),
    {
        let ghost dv = data@;
        self.tokens.insert(token_id, data);
        assert(self@.tokens =~= old(self)@.tokens.insert(token_id, dv));
    }

    /// Take token `token_id` out of the store.
    pub(crate) fn take_token(&mut self, token_id: TokenId) -> (r: TokenData)
        requires
            old(self)@.tokens.contains_key(token_id),
        ensures
            r@ == old(self)@.tokens[token_id],
            final(self)@ == (NftView { tokens: old(self)@.tokens.remove(token_id), ..old(self)@ }),
    {
        let r = self.tokens.remove(&token_id);
        assert(self@.tokens =~= old(self)@.tokens.remove(token_id));
        match r {
            Some(d) => d,
            None => vstd::pervasive::unreached(),
        }
    }

    /// Check that `addr` is the admin.
    pub(crate) fn require_admin(&self, addr: &Address) -> (r: Result<(), Error>)
        requires
            self@.admin is Some,
        ensures
            r == (if self@.admin == Some(addr@) { Ok::<(), Error>(()) } else { Err(Error::Unauthorized) }),
    {
        match &self.admin {
            Some(a) => {
                if a.same_as(addr) {
                    Ok(())
                } else {
                    Err(Error::Unauthorized)
                }
            },
            None => Err(Error::Unauthorized),
        }
    }

    /// Check that the contract is not paused.
    pub(crate) fn require_not_paused(&self) -> (r: Result<(), Error>)
        ensures
            r == (if self@.paused { Err(Error::ContractPaused) } else { Ok::<(), Error>(()) }),
    {
        if self.paused {
            Err(Error::ContractPaused)
        } else {
            Ok(())
        }
    }

    /// The stored data of token `token_id`.
    pub(crate) fn load_token(&self, token_id: TokenId) -> (r: Result<&TokenData, Error>)
        ensures
            match r {
                Ok(t) => self@.tokens.contains_key(token_id) && t@ == self@.tokens[token_id],
                Err(e) => !self@.tokens.contains_key(token_id) && e == Error::InvalidTokenId,
            },
    {
        match self.tokens.get(&token_id) {
            Some(t) => Ok(t),
            None => Err(Error::InvalidTokenId),
        }
    }

    pub fn get_clip_id(&self, token_id: TokenId) -> (r: Result<u32, Error>)
        ensures
            match r {
                Ok(c) => self@.tokens.contains_key(token_id) && c == self@.tokens[token_id].clip_id,
                Err(e) => !self@.tokens.contains_key(token_id) && e == Error::InvalidTokenId,
            },
    {
        Ok(self.load_token(token_id)?.clip_id)
    }

    pub fn owner_of(&self, token_id: TokenId) -> (r: Result<Address, Error>)
        ensures
            match r {
                Ok(a) => self@.tokens.contains_key(token_id) && a@ == self@.tokens[token_id].owner,
                Err(e) => !self@.tokens.contains_key(token_id) && e == Error::InvalidTokenId,
            },
    {
        Ok(self.load_token(token_id)?.owner.duplicate())
    }

    pub fn token_uri(&self, token_id: TokenId) -> (r: Result<Vec<u8>, Error>)
        ensures
            match r {
                Ok(u) => self@.tokens.contains_key(token_id) && u@ == self@.tokens[token_id].metadata_uri,
                Err(e) => !self@.tokens.contains_key(token_id) && e == Error::InvalidTokenId,
            },
    {
        Ok(copy_bytes(&self.load_token(token_id)?.metadata_uri))
    }

    pub fn get_metadata(&self, token_id: TokenId) -> (r: Result<Vec<u8>, Error>)
        ensures
            match r {
                Ok(u) => self@.tokens.contains_key(token_id) && u@ == self@.tokens[token_id].metadata_uri,
                Err(e) => !self@.tokens.contains_key(token_id) && e == Error::InvalidTokenId,
            },
    {
        self.token_uri(token_id)
    }

    pub fn clip_token_id(&self, clip_id: u32) -> (r: Result<TokenId, Error>)
        ensures
            match r {
                Ok(t) => self@.clip_tokens.contains_key(clip_id) && t == self@.clip_tokens[clip_id],
                Err(e) => !self@.clip_tokens.contains_key(clip_id) && e == Error::InvalidTokenId,
            },
    {
        match self.clip_tokens.get(&clip_id) {
            Some(t) => Ok(*t),
            None => Err(Error::InvalidTokenId),
        }
    }

    pub fn get_royalty(&self, token_id: TokenId) -> (r: Result<Royalty, Error>)
        ensures
            match r {
                Ok(ro) => self@.tokens.contains_key(token_id) && ro@ == self@.tokens[token_id].royalty,
                Err(e) => !self@.tokens.contains_key(token_id) && e == Error::InvalidTokenId,
            },
    {
        Ok(self.load_token(token_id)?.royalty.duplicate())
    }

    /// The number of tokens minted so far; burning a token does not lower it.
    pub fn total_supply(&self) -> (r: u32)
        ensures
            r == self@.minted_count(),
    {
        if self.next_token_id >= 1 { self.next_token_id - 1 } else { 0 }
    }

    pub fn token_exists(&self, token_id: TokenId) -> (r: bool)
        ensures
            r == self@.tokens.contains_key(token_id),
    {
        self.tokens.contains_key(&token_id)
    }

    /// Whether the token is soulbound; `false` for a token that does not exist.
    pub fn is_soulbound(&self, token_id: TokenId) -> (r: bool)
        ensures
            r == (self@.tokens.contains_key(token_id) && self@.tokens[token_id].is_soulbound),
    {
        match self.load_token(token_id) {
            Ok(d) => d.is_soulbound,
            Err(_) => false,
        }
    }

    /// Returns the collection_id for a token.
    pub fn get_collection_id(&self, token_id: TokenId) -> (r: Result<u32, Error>)
        ensures
            match r {
                Ok(c) => self@.tokens.contains_key(token_id) && c == self@.tokens[token_id].collection_id,
                Err(e) => !self@.tokens.contains_key(token_id) && e == Error::InvalidTokenId,
            },
    {
        Ok(self.load_token(token_id)?.collection_id)
    }

    /// Returns the number of tokens minted in a given collection.
    pub fn collection_supply(&self, collection_id: u32) -> (r: u32)
        ensures
            r == self@.collection_count(collection_id),
    {
        match self.collection_counts.get(&collection_id) {
            Some(c) => *c,
            None => 0,
        }
    }

    pub fn is_approved_for_all(&self, owner: &Address, operator: &Address) -> (r: bool)
        ensures
            r == self@.is_operator(owner@, operator@),
    {
        let key = OperatorKey { owner: owner.duplicate(), operator: operator.duplicate() };
        match self.operators.get(&key) {
            Some(b) => b,
            None => false,
        }
    }

    pub fn get_approved(&self, token_id: TokenId) -> (r: Option<Address>)
        ensures
            opt_address_view(r) == (if self@.approved.contains_key(token_id) {
                Some(self@.approved[token_id])
            } else {
                None::<Seq<u8>>
            }),
    {
        match self.approved.get(&token_id) {
            Some(a) => Some(a.duplicate()),
            None => None,
        }
    }

    /// Return the accrued (unclaimed) royalty balance for an address.
    pub fn accrued_royalties(&self, recipient: &Address) -> (r: i128)
        ensures
            r == self@.accrued_of(recipient@),
    {
        match self.accrued.get(recipient) {
            Some(a) => a,
            None => 0,
        }
    }

    /// The ids, ascending, of at most `MAX_TOKENS_LISTED` tokens that `owner`
    /// holds, the lowest ones first.
    pub fn tokens_of_owner(&self, owner: &Address) -> (r: Vec<TokenId>)
        ensures
            r@ == listed_tokens(self@, owner@),
    {
        let next_id = self.next_token_id;
        let mut result: Vec<TokenId> = Vec::new();
        let mut count: u32 = 0;
        let mut id: u32 = 1;
        while id < next_id && count < MAX_TOKENS_LISTED
            invariant
                next_id == self@.next_token_id,
                1 <= id,
                id <= next_id || id == 1,
                result@ == owned_ids(self@.tokens, owner@, 1, id as int),
                count == result@.len(),
                count <= MAX_TOKENS_LISTED,
            decreases next_id - id,
        {
            match self.tokens.get(&id) {
                Some(data) => {
                    if data.owner.same_as(owner) {
                        result.push(id);
                        count = count + 1;
                    }
                },
                None => {},
            }
            id = id + 1;
        }
        proof {
            if next_id >= 1 {
                lemma_owned_ids_prefix(self@.tokens, owner@, 1, id as int, next_id as int);
                let all = owned_ids(self@.tokens, owner@, 1, next_id as int);
                if count < MAX_TOKENS_LISTED {
                    assert(id == next_id);
                    assert(result@ == all);
                    assert(listed_tokens(self@, owner@) == all);
                } else {
                    assert(result@ =~= all.subrange(0, MAX_TOKENS_LISTED as int));
                    if all.len() <= MAX_TOKENS_LISTED {
                        assert(all =~= all.subrange(0, MAX_TOKENS_LISTED as int));
                    }
                    assert(listed_tokens(self@, owner@) == result@);
                }
            } else {
                assert(owned_ids(self@.tokens, owner@, 1, 0) =~= Seq::<u32>::empty());
                assert(owned_ids(self@.tokens, owner@, 1, 1) =~= Seq::<u32>::empty());
            }
        }
        result
    }
}

} // verus!
