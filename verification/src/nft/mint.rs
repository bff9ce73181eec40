//! Minting: the message that the backend signer signs for a clip, the
//! signature check, and single and batch mints.
use vstd::prelude::*;
use std::collections::HashSet;
use crate::address::Address;
use crate::digest::{sha256, sha256_digest, ed25519_verify, ed25519_accepts};
use crate::error::Error;
use crate::xdr::{le32, le32_bytes, string_xdr, encode_string_xdr};
use crate::nft::events::{ContractEvent, EventView, MintEvent, BatchMintEvent};
use crate::nft::state::{ClipsNftContract, NftView, count_in, collection_members, lemma_members_insert_fresh};
use crate::nft::types::{TokenId, TokenData, TokenView, Royalty, RoyaltyView, copy_bytes};
use crate::nft::royalty::{normalized, royalty_view_result};

verus! {

broadcast use vstd::std_specs::hash::group_hash_axioms;

/// The message that authorizes minting clip `clip_id` with metadata `uri` to
/// `to`: the SHA-256 digest of the clip id's four little-endian bytes, the
/// digest of the owner's XDR encoding, and the digest of the XDR encoding of
/// the metadata string.
pub open spec fn mint_message_bytes(to: Seq<u8>, clip_id: u32, uri: Seq<u8>) -> Seq<u8> {
    sha256_digest(le32(clip_id) + sha256_digest(to) + sha256_digest(string_xdr(uri)))
}

/// Whether the signer accepts `signature` for minting clip `clip_id` with
/// metadata `uri` to `to`. `InvalidSignature` stands for the ledger host's
/// signature check, which traps and aborts the whole call where it fails.
pub open spec fn clip_signature_result(s: NftView, to: Seq<u8>, clip_id: u32, uri: Seq<u8>, signature: Seq<u8>) -> Result<(), Error> {
    match s.signer {
        None => Err(Error::SignerNotSet),
        Some(pk) => if ed25519_accepts(pk, mint_message_bytes(to, clip_id, uri), signature) {
            Ok(())
        } else {
            Err(Error::InvalidSignature)
        },
    }
}

/// The outcome of the checks of `mint`: the royalty to store, or the error.
pub open spec fn mint_check(
    s: NftView,
    to: Seq<u8>,
    clip_id: u32,
    uri: Seq<u8>,
    royalty: RoyaltyView,
    signature: Seq<u8>,
) -> Result<RoyaltyView, Error> {
    if s.paused {
        Err(Error::ContractPaused)
    } else if clip_signature_result(s, to, clip_id, uri, signature) is Err {
        Err(clip_signature_result(s, to, clip_id, uri, signature)->Err_0)
    } else if s.clip_tokens.contains_key(clip_id) {
        Err(Error::TokenAlreadyMinted)
    } else if s.blacklisted.contains(clip_id) {
        Err(Error::ClipBlacklisted)
    } else {
        normalized(s.platform_recipient, royalty)
    }
}

/// The state after a new token is stored for clip `clip_id` under the next
/// id, with no event.
pub open spec fn token_added(
    s: NftView,
    to: Seq<u8>,
    clip_id: u32,
    uri: Seq<u8>,
    royalty: RoyaltyView,
    is_soulbound: bool,
    collection_id: u32,
) -> NftView {
    let id = s.next_token_id;
    NftView {
        tokens: s.tokens.insert(
            id,
            TokenView { owner: to, clip_id, is_soulbound, metadata_uri: uri, royalty, collection_id },
        ),
        clip_tokens: s.clip_tokens.insert(clip_id, id),
        next_token_id: (id + 1) as u32,
        collection_counts: s.collection_counts.insert(collection_id, (s.collection_count(collection_id) + 1) as u32),
        ..s
    }
}

/// The state after `mint`.
pub open spec fn minted(
    s: NftView,
    to: Seq<u8>,
    clip_id: u32,
    uri: Seq<u8>,
    royalty: RoyaltyView,
    is_soulbound: bool,
    collection_id: u32,
) -> NftView {
    token_added(s, to, clip_id, uri, royalty, is_soulbound, collection_id).emit(
        EventView::Mint { to, clip_id, token_id: s.next_token_id, metadata_uri: uri, collection_id },
    )
}

/// The error that item `i` of a batch meets, given that the items before it
/// have been minted.
pub open spec fn batch_item_error(
    s: NftView,
    to: Seq<u8>,
    clips: Seq<u32>,
    uris: Seq<Seq<u8>>,
    signatures: Seq<Seq<u8>>,
    i: int,
) -> Option<Error> {
    if clip_signature_result(s, to, clips[i], uris[i], signatures[i]) is Err {
        Some(clip_signature_result(s, to, clips[i], uris[i], signatures[i])->Err_0)
    } else if s.clip_tokens.contains_key(clips[i]) || clips.subrange(0, i).contains(clips[i]) {
        Some(Error::TokenAlreadyMinted)
    } else if s.blacklisted.contains(clips[i]) {
        Some(Error::ClipBlacklisted)
    } else {
        None
    }
}

/// The first error among the first `k` items of a batch.
pub open spec fn batch_first_error(
    s: NftView,
    to: Seq<u8>,
    clips: Seq<u32>,
    uris: Seq<Seq<u8>>,
    signatures: Seq<Seq<u8>>,
    k: int,
) -> Option<Error>
    decreases k,
{
    if k <= 0 {
        None
    } else {
        match batch_first_error(s, to, clips, uris, signatures, k - 1) {
            Some(e) => Some(e),
            None => batch_item_error(s, to, clips, uris, signatures, k - 1),
        }
    }
}

/// The outcome of the checks of `batch_mint`: the royalty to store, or the
/// error.
pub open spec fn batch_check(
    s: NftView,
    to: Seq<u8>,
    clips: Seq<u32>,
    uris: Seq<Seq<u8>>,
    royalty: RoyaltyView,
    signatures: Seq<Seq<u8>>,
) -> Result<RoyaltyView, Error> {
    if s.paused {
        Err(Error::ContractPaused)
    } else if clips.len() != uris.len() || clips.len() != signatures.len() {
        Err(Error::InvalidRoyaltySplit)
    } else {
        match normalized(s.platform_recipient, royalty) {
            Err(e) => Err(e),
            Ok(n) => match batch_first_error(s, to, clips, uris, signatures, clips.len() as int) {
                Some(e) => Err(e),
                None => Ok(n),
            },
        }
    }
}

/// The state after the first `k` items of a batch are stored, with no event.
pub open spec fn batch_added(
    s: NftView,
    to: Seq<u8>,
    clips: Seq<u32>,
    uris: Seq<Seq<u8>>,
    royalty: RoyaltyView,
    is_soulbound: bool,
    collection_id: u32,
    k: int,
) -> NftView
    decreases k,
{
    if k <= 0 {
        s
    } else {
        token_added(
            batch_added(s, to, clips, uris, royalty, is_soulbound, collection_id, k - 1),
            to,
            clips[k - 1],
            uris[k - 1],
            royalty,
            is_soulbound,
            collection_id,
        )
    }
}

/// The ids that a batch of `n` items receives.
pub open spec fn batch_ids(s: NftView, n: int) -> Seq<u32> {
    Seq::new(n as nat, |j: int| (s.next_token_id + j) as u32)
}

/// The state after `batch_mint`.
pub open spec fn batch_minted(
    s: NftView,
    to: Seq<u8>,
    clips: Seq<u32>,
    uris: Seq<Seq<u8>>,
    royalty: RoyaltyView,
    is_soulbound: bool,
    collection_id: u32,
) -> NftView {
    let n = clips.len();
    batch_added(s, to, clips, uris, royalty, is_soulbound, collection_id, n as int).emit(
        EventView::BatchMint {
            to,
            count: n as u32,
            first_token_id: if n > 0 { s.next_token_id } else { 0 },
        },
    )
}

pub open spec fn uris_view(uris: Seq<Vec<u8>>) -> Seq<Seq<u8>> {
    uris.map_values(|u: Vec<u8>| u@)
}

pub open spec fn signatures_view(signatures: Seq<[u8; 64]>) -> Seq<Seq<u8>> {
    signatures.map_values(|g: [u8; 64]| g@)
}

/// The message that the signer signs to authorize minting clip `clip_id`
/// with metadata `metadata_uri` to `to`.
pub fn mint_message(to: &Address, clip_id: u32, metadata_uri: &[u8]) -> (r: Vec<u8>)
    requires
        metadata_uri@.len() <= u32::MAX,
    ensures
        r@ == mint_message_bytes(to@, clip_id, metadata_uri@),
{
    let owner_hash = sha256(to.to_xdr());
    let uri_xdr = encode_string_xdr(metadata_uri);
    let uri_hash = sha256(uri_xdr.as_slice());
    let mut preimage = le32_bytes(clip_id);
    let ghost p0 = preimage@;
    let mut i: usize = 0;
    while i < owner_hash.len()
        invariant
            i <= owner_hash.len(),
            preimage@ =~= p0 + owner_hash@.subrange(0, i as int),
        decreases owner_hash.len() - i,
    {
        preimage.push(owner_hash[i]);
        i = i + 1;
    }
    let ghost p1 = preimage@;
    let mut j: usize = 0;
    while j < uri_hash.len()
        invariant
            j <= uri_hash.len(),
            preimage@ =~= p1 + uri_hash@.subrange(0, j as int),
        decreases uri_hash.len() - j,
    {
        preimage.push(uri_hash[j]);
        j = j + 1;
    }
    proof {
        assert(owner_hash@.subrange(0, owner_hash@.len() as int) =~= owner_hash@);
        assert(uri_hash@.subrange(0, uri_hash@.len() as int) =~= uri_hash@);
        assert(preimage@ =~= le32(clip_id) + sha256_digest(to@) + sha256_digest(string_xdr(metadata_uri@)));
    }
    sha256(preimage.as_slice())
}

pub proof fn lemma_batch_first_error_none(
    s: NftView,
    to: Seq<u8>,
    clips: Seq<u32>,
    uris: Seq<Seq<u8>>,
    signatures: Seq<Seq<u8>>,
    k: int,
    i: int,
)
    requires
        batch_first_error(s, to, clips, uris, signatures, k) is None,
        0 <= i < k,
    ensures
        batch_item_error(s, to, clips, uris, signatures, i) is None,
    decreases k,
{
    if i < k - 1 {
        lemma_batch_first_error_none(s, to, clips, uris, signatures, k - 1, i);
    }
}

pub proof fn lemma_batch_first_error_stable(
    s: NftView,
    to: Seq<u8>,
    clips: Seq<u32>,
    uris: Seq<Seq<u8>>,
    signatures: Seq<Seq<u8>>,
    j: int,
    k: int,
)
    requires
        0 <= j <= k,
        batch_first_error(s, to, clips, uris, signatures, j) is Some,
    ensures
        batch_first_error(s, to, clips, uris, signatures, k) == batch_first_error(s, to, clips, uris, signatures, j),
    decreases k - j,
{
    if j < k {
        lemma_batch_first_error_stable(s, to, clips, uris, signatures, j, k - 1);
    }
}

proof fn lemma_seq_push_contains(s: Seq<u32>, x: u32, c: u32)
    ensures
        s.push(x).contains(c) <==> (s.contains(c) || c == x),
{
    if s.contains(c) {
        let i = choose|i: int| 0 <= i < s.len() && s[i] == c;
        assert(s.push(x)[i] == c);
    }
    if c == x {
        assert(s.push(x)[s.len() as int] == c);
    }
    if s.push(x).contains(c) {
        let i = choose|i: int| 0 <= i < s.push(x).len() && s.push(x)[i] == c;
        if i < s.len() {
            assert(s[i] == c);
        }
    }
}

impl ClipsNftContract {
    /// The error that item `i` of a batch meets, where `seen` holds the
    /// clips of the items before it.
    fn check_batch_item(
        &self,
        to: &Address,
        clip_ids: &Vec<u32>,
        metadata_uris: &Vec<Vec<u8>>,
        signatures: &Vec<[u8; 64]>,
        seen: &HashSet<u32>,
        i: usize,
    ) -> (r: Option<Error>)
        requires
            i < clip_ids@.len(),
            i < metadata_uris@.len(),
            i < signatures@.len(),
            metadata_uris@[i as int]@.len() <= u32::MAX,
            seen@ == clip_ids@.subrange(0, i as int).to_set(),
        ensures
            r == batch_item_error(self@, to@, clip_ids@, uris_view(metadata_uris@), signatures_view(signatures@), i as int),
    {
        let clip_id = clip_ids[i];
        proof {
            assert(uris_view(metadata_uris@)[i as int] == metadata_uris@[i as int]@);
            assert(signatures_view(signatures@)[i as int] == signatures@[i as int]@);
        }
        match self.verify_clip_signature(to, clip_id, &metadata_uris[i], &signatures[i]) {
            Err(e) => {
                return Some(e);
            },
            Ok(()) => {},
        }
        if self.clip_tokens.contains_key(&clip_id) || seen.contains(&clip_id) {
            return Some(Error::TokenAlreadyMinted);
        }
        if self.blacklisted.contains(&clip_id) {
            return Some(Error::ClipBlacklisted);
        }
        None
    }

    /// The first error that the items of a batch meet.
    fn first_batch_error(
        &self,
        to: &Address,
        clip_ids: &Vec<u32>,
        metadata_uris: &Vec<Vec<u8>>,
        signatures: &Vec<[u8; 64]>,
    ) -> (r: Option<Error>)
        requires
            clip_ids@.len() == metadata_uris@.len(),
            clip_ids@.len() == signatures@.len(),
            forall|j: int| 0 <= j < metadata_uris@.len() ==> (#[trigger] metadata_uris@[j])@.len() <= u32::MAX,
        ensures
            r == batch_first_error(
                self@,
                to@,
                clip_ids@,
                uris_view(metadata_uris@),
                signatures_view(signatures@),
                clip_ids@.len() as int,
            ),
    {
        let ghost clips = clip_ids@;
        let ghost uris = uris_view(metadata_uris@);
        let ghost sigs = signatures_view(signatures@);
        let n = clip_ids.len();
        let mut seen: HashSet<u32> = HashSet::new();
        let mut i: usize = 0;
        while i < n
            invariant
                n == clip_ids@.len(),
                n == metadata_uris@.len(),
                n == signatures@.len(),
                clips == clip_ids@,
                uris == uris_view(metadata_uris@),
                sigs == signatures_view(signatures@),
                forall|j: int| 0 <= j < metadata_uris@.len() ==> (#[trigger] metadata_uris@[j])@.len() <= u32::MAX,
                i <= n,
                batch_first_error(self@, to@, clips, uris, sigs, i as int) is None,
                seen@ == clips.subrange(0, i as int).to_set(),
            decreases n - i,
        {
            match self.check_batch_item(to, clip_ids, metadata_uris, signatures, &seen, i) {
                Some(e) => {
                    proof {
                        lemma_batch_first_error_stable(self@, to@, clips, uris, sigs, i + 1, n as int);
                    }
                    return Some(e);
                },
                None => {},
            }
            let clip_id = clip_ids[i];
            seen.insert(clip_id);
            proof {
                assert(clips.subrange(0, i + 1) =~= clips.subrange(0, i as int).push(clip_id));
                assert forall|c: u32| #[trigger] seen@.contains(c) <==> clips.subrange(0, i + 1).to_set().contains(c) by {
                    lemma_seq_push_contains(clips.subrange(0, i as int), clip_id, c);
                }
                assert(seen@ =~= clips.subrange(0, i + 1).to_set());
            }
            i = i + 1;
        }
        None
    }

    /// Check the signer's signature on the mint of clip `clip_id`.
    fn verify_clip_signature(&self, owner: &Address, clip_id: u32, metadata_uri: &Vec<u8>, signature: &[u8; 64]) -> (r: Result<(), Error>)
        requires
            metadata_uri@.len() <= u32::MAX,
        ensures
            r == clip_signature_result(self@, owner@, clip_id, metadata_uri@, signature@),
    {
        let signer = match &self.signer {
            Some(k) => k,
            None => {
                return Err(Error::SignerNotSet);
            },
        };
        let message = mint_message(owner, clip_id, metadata_uri.as_slice());
        if ed25519_verify(signer, message.as_slice(), signature) {
            Ok(())
        } else {
            Err(Error::InvalidSignature)
        }
    }

    /// Store a new token for clip `clip_id` under the next id.
    fn add_token(
        &mut self,
        to: &Address,
        clip_id: u32,
        metadata_uri: Vec<u8>,
        royalty: Royalty,
        is_soulbound: bool,
        collection_id: u32,
    ) -> (id: TokenId)
        requires
            old(self)@.next_token_id < u32::MAX,
            old(self)@.collection_count(collection_id) < u32::MAX,
        ensures
            id == old(self)@.next_token_id,
            final(self)@ == token_added(old(self)@, to@, clip_id, metadata_uri@, royalty@, is_soulbound, collection_id),
            old(self).wf() && old(self)@.admin is Some && !old(self)@.clip_tokens.contains_key(clip_id)
                ==> final(self).wf(),
    {
        let ghost s0 = self@;
        let token_id = self.next_token_id;
        let data = TokenData {
            owner: to.duplicate(),
            clip_id,
            is_soulbound,
            metadata_uri,
            royalty,
            collection_id,
        };
        self.store_token(token_id, data);
        self.clip_tokens.insert(clip_id, token_id);
        self.next_token_id = token_id + 1;
        let col_count = self.collection_supply(collection_id);
        self.collection_counts.insert(collection_id, col_count + 1);
        proof {
            assert(self@ == token_added(s0, to@, clip_id, metadata_uri@, royalty@, is_soulbound, collection_id));
            if s0.wf() && s0.admin is Some && !s0.clip_tokens.contains_key(clip_id) {
            assert(self@.wf()) by {
                assert forall|id: u32| #[trigger] self@.tokens.contains_key(id) implies {
                    &&& self@.clip_tokens.contains_key(self@.tokens[id].clip_id)
                    &&& self@.clip_tokens[self@.tokens[id].clip_id] == id
                } by {
                    if id != token_id {
                        assert(s0.tokens.contains_key(id));
                        assert(s0.clip_tokens.contains_key(s0.tokens[id].clip_id));
                    }
                }
                assert forall|c: u32| #[trigger] self@.clip_tokens.contains_key(c) implies {
                    &&& self@.tokens.contains_key(self@.clip_tokens[c])
                    &&& self@.tokens[self@.clip_tokens[c]].clip_id == c
                } by {
                    if c != clip_id {
                        assert(s0.clip_tokens.contains_key(c));
                    }
                }
                assert forall|c: u32| #[trigger] self@.collection_counts.contains_key(c)
                    implies self@.collection_counts[c] < self@.next_token_id by {
                    if c != collection_id {
                        assert(s0.collection_counts.contains_key(c));
                    }
                }
                let tv = self@.tokens[token_id];
                assert(!s0.tokens.contains_key(token_id));
                assert(self@.tokens == s0.tokens.insert(token_id, tv));
                assert forall|c: u32| #[trigger] count_in(self@.collection_counts, c) == collection_members(self@.tokens, c).len() by {
                    lemma_members_insert_fresh(s0.tokens, token_id, tv, c);
                    assert(count_in(s0.collection_counts, c) == collection_members(s0.tokens, c).len());
                }
                lemma_members_insert_fresh(s0.tokens, token_id, tv, collection_id);
            }
            }
        }
        token_id
    }

    /// Mint a new NFT.
    ///
    /// # Arguments
    /// * `collection_id` - Collection this clip belongs to (0 = default)
    ///
    /// A signature that the signer's key does not accept gives
    /// `Err(InvalidSignature)` with the state unchanged. On the ledger the
    /// host's signature check traps there instead: the error stands for that
    /// trap, and the host binding turns it back into one.
    pub fn mint(
        &mut self,
        to: &Address,
        clip_id: u32,
        metadata_uri: Vec<u8>,
        royalty: Royalty,
        is_soulbound: bool,
        collection_id: u32,
        signature: [u8; 64],
    ) -> (r: Result<TokenId, Error>)
        requires
            metadata_uri@.len() <= u32::MAX,
            mint_check(old(self)@, to@, clip_id, metadata_uri@, royalty@, signature@) is Ok ==> {
                &&& old(self)@.next_token_id < u32::MAX
                &&& old(self)@.collection_count(collection_id) < u32::MAX
            },
        ensures
            match mint_check(old(self)@, to@, clip_id, metadata_uri@, royalty@, signature@) {
                Ok(n) => {
                    &&& r == Ok::<TokenId, Error>(old(self)@.next_token_id)
                    &&& final(self)@ == minted(old(self)@, to@, clip_id, metadata_uri@, n, is_soulbound, collection_id)
                },
                Err(e) => r == Err::<TokenId, Error>(e) && final(self)@ == old(self)@,
            },
            old(self).wf() ==> final(self).wf(),
    {
        self.require_not_paused()?;
        self.verify_clip_signature(to, clip_id, &metadata_uri, &signature)?;
        if self.clip_tokens.contains_key(&clip_id) {
            return Err(Error::TokenAlreadyMinted);
        }
        if self.blacklisted.contains(&clip_id) {
            return Err(Error::ClipBlacklisted);
        }
        let royalty = self.normalize_royalty(royalty)?;
        let uri_copy = copy_bytes(&metadata_uri);
        let token_id = self.add_token(to, clip_id, metadata_uri, royalty, is_soulbound, collection_id);
        self.emit(
            ContractEvent::Mint(MintEvent {
                to: to.duplicate(),
                clip_id,
                token_id,
                metadata_uri: uri_copy,
                collection_id,
            }),
        );
        Ok(token_id)
    }

    /// Mint one token per clip in `clip_ids`, with the metadata and signature
    /// at the same position, all to `to` with the same royalty, soulbound
    /// flag and collection. Either every item is minted, under consecutive
    /// ids, or none is.
    ///
    /// An item whose signature the signer's key does not accept gives
    /// `Err(InvalidSignature)` with the state unchanged. On the ledger the
    /// host's signature check traps there instead: the error stands for that
    /// trap, and the host binding turns it back into one.
    pub fn batch_mint(
        &mut self,
        to: &Address,
        clip_ids: Vec<u32>,
        metadata_uris: Vec<Vec<u8>>,
        royalty: Royalty,
        is_soulbound: bool,
        collection_id: u32,
        signatures: Vec<[u8; 64]>,
    ) -> (r: Result<Vec<TokenId>, Error>)
        requires
            clip_ids@.len() <= u32::MAX,
            forall|i: int| 0 <= i < metadata_uris@.len() ==> (#[trigger] metadata_uris@[i])@.len() <= u32::MAX,
            batch_check(old(self)@, to@, clip_ids@, uris_view(metadata_uris@), royalty@, signatures_view(signatures@)) is Ok ==> {
                &&& old(self)@.next_token_id + clip_ids@.len() <= u32::MAX
                &&& old(self)@.collection_count(collection_id) + clip_ids@.len() <= u32::MAX
            },
        ensures
            match batch_check(old(self)@, to@, clip_ids@, uris_view(metadata_uris@), royalty@, signatures_view(signatures@)) {
                Ok(n) => {
                    &&& r is Ok
                    &&& r->Ok_0@ == batch_ids(old(self)@, clip_ids@.len() as int)
                    &&& final(self)@ == batch_minted(old(self)@, to@, clip_ids@, uris_view(metadata_uris@), n, is_soulbound, collection_id)
                },
                Err(e) => r == Err::<Vec<TokenId>, Error>(e) && final(self)@ == old(self)@,
            },
            old(self).wf() ==> final(self).wf(),
    {
        let ghost s0 = self@;
        let ghost clips = clip_ids@;
        let ghost uris = uris_view(metadata_uris@);
        let ghost sigs = signatures_view(signatures@);
        self.require_not_paused()?;
        let n = clip_ids.len();
        if n != metadata_uris.len() || n != signatures.len() {
            return Err(Error::InvalidRoyaltySplit);
        }
        let ghost given = royalty@;
        let royalty = self.normalize_royalty(royalty)?;
        proof {
            assert(normalized(s0.platform_recipient, given) == Ok::<RoyaltyView, Error>(royalty@));
        }
        match self.first_batch_error(to, &clip_ids, &metadata_uris, &signatures) {
            Some(e) => {
                return Err(e);
            },
            None => {},
        }
        proof {
            assert(batch_check(s0, to@, clips, uris, royalty@, sigs) == Ok::<RoyaltyView, Error>(royalty@));
            if n > 0 {
                lemma_batch_first_error_none(s0, to@, clips, uris, sigs, n as int, 0);
            }
        }
        let mut minted_ids: Vec<TokenId> = Vec::new();
        let mut k: usize = 0;
        while k < n
            invariant
                s0.wf() ==> self.wf(),
                n == clip_ids@.len(),
                n == metadata_uris@.len(),
                clips == clip_ids@,
                uris == uris_view(metadata_uris@),
                batch_first_error(s0, to@, clips, uris, sigs, n as int) is None,
                s0.next_token_id + n <= u32::MAX,
                s0.collection_count(collection_id) + n <= u32::MAX,
                self@.collection_count(collection_id) == s0.collection_count(collection_id) + k,
                k <= n,
                self@ == batch_added(s0, to@, clips, uris, royalty@, is_soulbound, collection_id, k as int),
                self@.next_token_id == s0.next_token_id + k,
                self@.admin == s0.admin,
                n > 0 && s0.wf() ==> s0.admin is Some,
                forall|c: u32| #[trigger] self@.clip_tokens.contains_key(c) <==> (s0.clip_tokens.contains_key(c) || clips.subrange(0, k as int).contains(c)),
                minted_ids@ =~= batch_ids(s0, k as int),
            decreases n - k,
        {
            proof {
                lemma_batch_first_error_none(s0, to@, clips, uris, sigs, n as int, k as int);
                assert(!clips.subrange(0, k as int).contains(clips[k as int]));
                assert(uris[k as int] == metadata_uris@[k as int]@);
            }
            let clip_id = clip_ids[k];
            let ghost prev = self@;
            let token_id = self.add_token(to, clip_id, copy_bytes(&metadata_uris[k]), royalty.duplicate(), is_soulbound, collection_id);
            minted_ids.push(token_id);
            proof {
                assert forall|c: u32| #[trigger] self@.clip_tokens.contains_key(c) <==> (s0.clip_tokens.contains_key(c) || clips.subrange(0, k + 1).contains(c)) by {
                    assert(clips.subrange(0, k + 1) =~= clips.subrange(0, k as int).push(clip_id));
                    lemma_seq_push_contains(clips.subrange(0, k as int), clip_id, c);
                    assert(self@.clip_tokens == prev.clip_tokens.insert(clip_id, token_id));
                }
            }
            k = k + 1;
        }
        let first_token_id = if n > 0 { minted_ids[0] } else { 0 };
        self.emit(ContractEvent::BatchMint(BatchMintEvent { to: to.duplicate(), count: n as u32, first_token_id }));
        Ok(minted_ids)
    }
}

} // verus!
