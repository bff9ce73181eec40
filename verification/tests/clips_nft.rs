use clipcash::address::Address;
use clipcash::nft::events::ContractEvent;
use clipcash::nft::mint::mint_message;
use clipcash::nft::state::{ClipsNftContract, GAS_MINT, GAS_TRANSFER, PAUSE_TIMELOCK_LEDGERS, VERSION};
use clipcash::nft::types::{Royalty, RoyaltyRecipient, TokenId};
use clipcash::xdr::encode_string_xdr;
use clipcash::Error;
use ed25519_dalek::Signer as _;
use soroban_sdk::testutils::Address as _;
use soroban_sdk::xdr::ToXdr;
use soroban_sdk::{Bytes, BytesN};

// ── helpers ─────────────────────────────────────────────────────────────────

fn to_vec(b: &soroban_sdk::Bytes) -> Vec<u8> {
    let mut v = vec![0u8; b.len() as usize];
    b.copy_into_slice(&mut v);
    v
}

/// A fresh ledger address, in the form the contract holds it.
fn generate(env: &soroban_sdk::Env) -> Address {
    let a = soroban_sdk::Address::generate(env);
    Address::from_xdr(to_vec(&a.to_xdr(env)))
}

struct Setup {
    env: soroban_sdk::Env,
    contract: ClipsNftContract,
    admin: Address,
    user1: Address,
    user2: Address,
}

fn setup() -> Setup {
    let env = soroban_sdk::Env::default();
    let admin = generate(&env);
    let user1 = generate(&env);
    let user2 = generate(&env);
    let mut contract = ClipsNftContract::new();
    contract.init(admin.clone());
    Setup { env, contract, admin, user1, user2 }
}

fn default_royalty(recipient: &Address) -> Royalty {
    Royalty {
        recipients: vec![RoyaltyRecipient { recipient: recipient.clone(), basis_points: 500 }],
        asset_address: None,
    }
}

fn signing_key(seed: u8) -> ed25519_dalek::SigningKey {
    ed25519_dalek::SigningKey::from_bytes(&[seed; 32])
}

fn register_signer(s: &mut Setup) -> ed25519_dalek::SigningKey {
    let sk = signing_key(7);
    s.contract.set_signer(&s.admin, sk.verifying_key().to_bytes()).unwrap();
    sk
}

fn sign_mint(sk: &ed25519_dalek::SigningKey, owner: &Address, clip_id: u32, uri: &[u8]) -> [u8; 64] {
    let msg = mint_message(owner, clip_id, uri);
    sk.sign(&msg).to_bytes()
}

fn do_mint(s: &mut Setup, to: &Address, clip_id: u32, sk: &ed25519_dalek::SigningKey) -> TokenId {
    let uri = b"ipfs://QmExample".to_vec();
    let sig = sign_mint(sk, to, clip_id, &uri);
    s.contract.mint(to, clip_id, uri, default_royalty(to), false, 0, sig).unwrap()
}

fn mint_with_asset(s: &mut Setup, to: &Address, clip_id: u32, sk: &ed25519_dalek::SigningKey, asset: &Address) -> TokenId {
    let uri = b"ipfs://QmExample".to_vec();
    let sig = sign_mint(sk, to, clip_id, &uri);
    let royalty = Royalty {
        recipients: vec![RoyaltyRecipient { recipient: to.clone(), basis_points: 500 }],
        asset_address: Some(asset.clone()),
    };
    s.contract.mint(to, clip_id, uri, royalty, false, 0, sig).unwrap()
}

// ── Task 1: claim_royalties ─────────────────────────────────────────────────

#[test]
fn test_accrue_and_claim_royalties() {
    let mut s = setup();
    let kp = register_signer(&mut s);
    let asset = generate(&s.env);
    let user1 = s.user1.clone();
    let token_id = mint_with_asset(&mut s, &user1, 1, &kp, &asset);

    // Accrue a balance of 500 for user1 by paying the royalty on a sale of
    // 10_000 (5% of it).
    let payer = generate(&s.env);
    s.contract.pay_royalty(&payer, token_id, 10_000).unwrap();

    assert_eq!(s.contract.accrued_royalties(&user1), 500i128);
    let claimed = s.contract.claim_royalties(&user1).unwrap();
    assert_eq!(claimed, 500i128);
    // Balance zeroed — double-claim prevention
    assert_eq!(s.contract.accrued_royalties(&user1), 0i128);
    assert_eq!(s.contract.claim_royalties(&user1), Err(Error::NothingToClaim));
}

#[test]
fn test_claim_royalties_nothing_to_claim() {
    let mut s = setup();
    let user1 = s.user1.clone();
    let result = s.contract.claim_royalties(&user1);
    assert_eq!(result, Err(Error::NothingToClaim));
}

#[test]
fn test_claim_royalties_emits_event() {
    let mut s = setup();
    let kp = register_signer(&mut s);
    let asset = generate(&s.env);
    let user1 = s.user1.clone();
    let token_id = mint_with_asset(&mut s, &user1, 1, &kp, &asset);
    // A sale of 2_000 accrues 100 to user1.
    let payer = generate(&s.env);
    s.contract.pay_royalty(&payer, token_id, 2_000).unwrap();
    assert_eq!(s.contract.accrued_royalties(&user1), 100);
    s.contract.take_events();
    s.contract.claim_royalties(&user1).unwrap();
    let events = s.contract.take_events();
    assert!(events.len() > 0);
    match &events[0] {
        ContractEvent::RoyaltyClaimed(e) => {
            assert_eq!(e.recipient, user1);
            assert_eq!(e.amount, 100);
        }
        other => panic!("unexpected event {:?}", other),
    }
}

// ── Task 2: pause timelock ──────────────────────────────────────────────────

#[test]
fn test_unpause_before_timelock_fails() {
    let mut s = setup();
    let admin = s.admin.clone();
    s.contract.pause(&admin, 0).unwrap();
    // Timelock not elapsed — unpause must fail
    let result = s.contract.unpause(&admin, 0);
    assert_eq!(result, Err(Error::TimelockActive));
}

#[test]
fn test_unpause_after_timelock_succeeds() {
    let mut s = setup();
    let admin = s.admin.clone();
    s.contract.pause(&admin, 0).unwrap();
    // Advance ledger past timelock
    s.contract.unpause(&admin, 0 + PAUSE_TIMELOCK_LEDGERS).unwrap();
    assert!(!s.contract.is_paused());
}

#[test]
fn test_pause_stores_timestamp() {
    let mut s = setup();
    let admin = s.admin.clone();
    let seq_before = 0u32;
    s.contract.pause(&admin, seq_before).unwrap();
    assert_eq!(s.contract.pause_requested_at(), seq_before);
}

#[test]
fn test_pause_blocks_mint_and_transfer() {
    let mut s = setup();
    let kp = register_signer(&mut s);
    let (admin, user1, user2) = (s.admin.clone(), s.user1.clone(), s.user2.clone());
    let token_id = do_mint(&mut s, &user1, 1, &kp);
    s.contract.pause(&admin, 0).unwrap();
    let uri = b"ipfs://QmX".to_vec();
    let sig = sign_mint(&kp, &user1, 2, &uri);
    assert_eq!(
        s.contract.mint(&user1, 2, uri, default_royalty(&user1), false, 0, sig),
        Err(Error::ContractPaused)
    );
    assert_eq!(s.contract.transfer(&user1, &user2, token_id), Err(Error::ContractPaused));
}

// ── Task 3: gas constants accessible ────────────────────────────────────────

#[test]
fn test_gas_constants_defined() {
    assert!(GAS_MINT > 0);
    assert!(GAS_TRANSFER > 0);
    assert!(GAS_MINT > GAS_TRANSFER); // mint is heavier
}

// ── Task 4: collection_id ───────────────────────────────────────────────────

#[test]
fn test_mint_with_collection_id() {
    let mut s = setup();
    let kp = register_signer(&mut s);
    let user1 = s.user1.clone();
    let uri = b"ipfs://QmExample".to_vec();
    let sig = sign_mint(&kp, &user1, 1, &uri);
    let token_id = s.contract.mint(&user1, 1, uri, default_royalty(&user1), false, 42, sig).unwrap();
    assert_eq!(s.contract.get_collection_id(token_id), Ok(42u32));
    assert_eq!(s.contract.collection_supply(42), 1u32);
}

#[test]
fn test_collection_supply_increments() {
    let mut s = setup();
    let kp = register_signer(&mut s);
    let user1 = s.user1.clone();
    do_mint(&mut s, &user1, 1, &kp); // collection 0
    do_mint(&mut s, &user1, 2, &kp); // collection 0
    assert_eq!(s.contract.collection_supply(0), 2u32);
}

#[test]
fn test_collection_supply_decrements_on_burn() {
    let mut s = setup();
    let kp = register_signer(&mut s);
    let user1 = s.user1.clone();
    let token_id = do_mint(&mut s, &user1, 1, &kp);
    assert_eq!(s.contract.collection_supply(0), 1u32);
    s.contract.burn(&user1, token_id).unwrap();
    assert_eq!(s.contract.collection_supply(0), 0u32);
}

// ── core ────────────────────────────────────────────────────────────────────

#[test]
fn test_mint_stores_owner_and_uri() {
    let mut s = setup();
    let kp = register_signer(&mut s);
    let user1 = s.user1.clone();
    let token_id = do_mint(&mut s, &user1, 42, &kp);
    assert_eq!(s.contract.owner_of(token_id), Ok(user1));
    assert_eq!(s.contract.token_uri(token_id), Ok(b"ipfs://QmExample".to_vec()));
    assert_eq!(s.contract.total_supply(), 1);
}

#[test]
fn test_transfer_updates_owner() {
    let mut s = setup();
    let kp = register_signer(&mut s);
    let (user1, user2) = (s.user1.clone(), s.user2.clone());
    let token_id = do_mint(&mut s, &user1, 1, &kp);
    s.contract.transfer(&user1, &user2, token_id).unwrap();
    assert_eq!(s.contract.owner_of(token_id), Ok(user2));
}

#[test]
fn test_soulbound_transfer_blocked() {
    let mut s = setup();
    let kp = register_signer(&mut s);
    let (user1, user2) = (s.user1.clone(), s.user2.clone());
    let uri = b"ipfs://QmExample".to_vec();
    let sig = sign_mint(&kp, &user1, 1, &uri);
    let token_id = s.contract.mint(&user1, 1, uri, default_royalty(&user1), true, 0, sig).unwrap();
    assert_eq!(s.contract.transfer(&user1, &user2, token_id), Err(Error::SoulboundTransferBlocked));
}

#[test]
fn test_double_mint_same_clip_id_fails() {
    let mut s = setup();
    let kp = register_signer(&mut s);
    let user1 = s.user1.clone();
    do_mint(&mut s, &user1, 7, &kp);
    let uri = b"ipfs://QmExample".to_vec();
    let sig = sign_mint(&kp, &user1, 7, &uri);
    assert_eq!(
        s.contract.mint(&user1, 7, uri, default_royalty(&user1), false, 0, sig),
        Err(Error::TokenAlreadyMinted)
    );
}

#[test]
fn test_royalty_info_xlm() {
    let mut s = setup();
    let kp = register_signer(&mut s);
    let user1 = s.user1.clone();
    let token_id = do_mint(&mut s, &user1, 1, &kp);
    let info = s.contract.royalty_info(token_id, 1_000_000i128).unwrap();
    assert_eq!(info.royalty_amount, 60_000i128);
}

#[test]
fn test_burn_removes_token() {
    let mut s = setup();
    let kp = register_signer(&mut s);
    let user1 = s.user1.clone();
    let token_id = do_mint(&mut s, &user1, 1, &kp);
    s.contract.burn(&user1, token_id).unwrap();
    assert!(!s.contract.token_exists(token_id));
}

// ── wallet flows ────────────────────────────────────────────────────────────

#[test]
fn test_integration_wallet_simulation_mint_and_royalty() {
    let mut s = setup();
    let admin = s.admin.clone();
    let user_wallet = generate(&s.env);
    let platform_recipient = admin.clone(); // Admin acts as platform recipient

    // Setup backend signer
    let signer_keypair = signing_key(42);
    s.contract.set_signer(&admin, signer_keypair.verifying_key().to_bytes()).unwrap();

    // End-to-End Mint Flow
    let clip_id = 12345u32;
    let metadata_uri = b"ipfs://QmVideoClip12345".to_vec();
    let royalty = Royalty {
        recipients: vec![RoyaltyRecipient { recipient: user_wallet.clone(), basis_points: 500 }],
        asset_address: None, // XLM
    };
    let signature = sign_mint(&signer_keypair, &user_wallet, clip_id, &metadata_uri);
    let token_id = s
        .contract
        .mint(&user_wallet, clip_id, metadata_uri.clone(), royalty, false, 0, signature)
        .unwrap();

    assert_eq!(token_id, 1);
    assert_eq!(s.contract.owner_of(token_id), Ok(user_wallet.clone()));
    assert_eq!(s.contract.token_uri(token_id), Ok(metadata_uri));
    assert_eq!(s.contract.total_supply(), 1);

    // Royalty flow: 5% creator + 1% platform on 1000 = 60
    let sale_price = 1000_i128;
    let royalty_info = s.contract.royalty_info(token_id, sale_price).unwrap();
    assert_eq!(royalty_info.royalty_amount, 60);
    assert_eq!(royalty_info.receiver, user_wallet);
    assert_eq!(royalty_info.asset_address, None);

    // Full royalty configuration
    let stored_royalty = s.contract.get_royalty(token_id).unwrap();
    assert_eq!(stored_royalty.recipients.len(), 2); // Creator + Platform
    let creator_split = &stored_royalty.recipients[0];
    assert_eq!(creator_split.recipient, user_wallet);
    assert_eq!(creator_split.basis_points, 500);
    let platform_split = &stored_royalty.recipients[1];
    assert_eq!(platform_split.recipient, platform_recipient);
    assert_eq!(platform_split.basis_points, 100);

    // Transfer flow
    let new_owner = generate(&s.env);
    s.contract.transfer(&user_wallet, &new_owner, token_id).unwrap();
    assert_eq!(s.contract.owner_of(token_id), Ok(new_owner.clone()));

    // Pause
    s.contract.pause(&admin, 0).unwrap();
    assert!(s.contract.is_paused());
    let result = s.contract.transfer(&new_owner, &user_wallet, token_id);
    assert!(result.is_err());

    // Unpause after the timelock
    s.contract.unpause(&admin, 0 + PAUSE_TIMELOCK_LEDGERS).unwrap();
    assert!(!s.contract.is_paused());

    s.contract.transfer(&new_owner, &user_wallet, token_id).unwrap();
    assert_eq!(s.contract.owner_of(token_id), Ok(user_wallet));
}

#[test]
fn test_freighter_wallet_simulation_custom_asset_mint_and_pay_royalty() {
    let mut s = setup();
    let admin = s.admin.clone();
    let backend = signing_key(9);
    s.contract.set_signer(&admin, backend.verifying_key().to_bytes()).unwrap();

    let creator = generate(&s.env);
    let buyer = generate(&s.env);
    let asset = generate(&s.env);

    let clip_id = 778u32;
    let metadata_uri = b"ipfs://QmFreighterClip778".to_vec();
    let royalty = Royalty {
        recipients: vec![RoyaltyRecipient { recipient: creator.clone(), basis_points: 500 }],
        asset_address: Some(asset.clone()),
    };
    let sig = sign_mint(&backend, &creator, clip_id, &metadata_uri);
    let token_id = s.contract.mint(&creator, clip_id, metadata_uri, royalty, false, 0, sig).unwrap();
    assert_eq!(token_id, 1);

    // Pay royalty from buyer: the settlement moves a positive amount of the
    // asset to the creator.
    let sale_price = 1_000_000_i128;
    let settlement = s.contract.pay_royalty(&buyer, token_id, sale_price).unwrap();
    assert_eq!(settlement.asset_address, asset);
    let to_creator: i128 = settlement
        .payouts
        .iter()
        .filter(|p| p.recipient == creator)
        .map(|p| p.amount)
        .sum();
    assert!(to_creator > 0);

    let stored = s.contract.get_royalty(token_id).unwrap();
    assert_eq!(stored.recipients.len(), 2);
    assert_eq!(stored.asset_address, Some(asset));
}

// ── the mint authorization message ──────────────────────────────────────────

/// The message as the ledger host computes it, from its own XDR encodings
/// and SHA-256.
fn host_message(env: &soroban_sdk::Env, owner: &soroban_sdk::Address, clip_id: u32, uri: &soroban_sdk::String) -> Vec<u8> {
    let owner_hash: BytesN<32> = env.crypto().sha256(&owner.clone().to_xdr(env)).into();
    let uri_hash: BytesN<32> = env.crypto().sha256(&Bytes::from(uri.to_xdr(env))).into();
    let mut preimage = Bytes::new(env);
    preimage.extend_from_array(&clip_id.to_le_bytes());
    preimage.append(&Bytes::from(owner_hash));
    preimage.append(&Bytes::from(uri_hash));
    let message: BytesN<32> = env.crypto().sha256(&preimage).into();
    message.to_array().to_vec()
}

#[test]
fn mint_message_matches_host_computation() {
    let env = soroban_sdk::Env::default();
    for (clip_id, text) in [(1u32, "ipfs://QmExample"), (12345, "ipfs://QmVideoClip12345"), (0, ""), (u32::MAX, "abc")] {
        let owner = soroban_sdk::Address::generate(&env);
        let uri = soroban_sdk::String::from_str(&env, text);
        let ours = mint_message(&Address::from_xdr(to_vec(&owner.clone().to_xdr(&env))), clip_id, text.as_bytes());
        assert_eq!(ours, host_message(&env, &owner, clip_id, &uri));
    }
}

#[test]
fn string_xdr_matches_host_encoding() {
    let env = soroban_sdk::Env::default();
    for text in ["", "a", "ab", "abc", "abcd", "abcde", "ipfs://QmExample"] {
        let host = to_vec(&soroban_sdk::String::from_str(&env, text).to_xdr(&env));
        assert_eq!(encode_string_xdr(text.as_bytes()), host);
    }
    assert_eq!(encode_string_xdr(b"ab"), vec![0, 0, 0, 14, 0, 0, 0, 2, b'a', b'b', 0, 0]);
}

#[test]
fn mint_with_bad_signature_is_refused() {
    let mut s = setup();
    let kp = register_signer(&mut s);
    let (user1, user2) = (s.user1.clone(), s.user2.clone());
    let uri = b"ipfs://QmExample".to_vec();
    // Signed for another owner.
    let sig = sign_mint(&kp, &user2, 1, &uri);
    assert_eq!(
        s.contract.mint(&user1, 1, uri.clone(), default_royalty(&user1), false, 0, sig),
        Err(Error::InvalidSignature)
    );
    // Signed by another key.
    let other = signing_key(8);
    let sig = sign_mint(&other, &user1, 1, &uri);
    assert_eq!(
        s.contract.mint(&user1, 1, uri.clone(), default_royalty(&user1), false, 0, sig),
        Err(Error::InvalidSignature)
    );
    // Signed for another clip.
    let sig = sign_mint(&kp, &user1, 2, &uri);
    assert_eq!(
        s.contract.mint(&user1, 1, uri, default_royalty(&user1), false, 0, sig),
        Err(Error::InvalidSignature)
    );
    assert_eq!(s.contract.total_supply(), 0);
}

#[test]
fn mint_without_signer_fails() {
    let mut s = setup();
    let user1 = s.user1.clone();
    let sig = sign_mint(&signing_key(1), &user1, 1, b"u");
    assert_eq!(
        s.contract.mint(&user1, 1, b"u".to_vec(), default_royalty(&user1), false, 0, sig),
        Err(Error::SignerNotSet)
    );
}

// ── further cases ───────────────────────────────────────────────────────────

#[test]
fn calculate_royalty_exact_values() {
    assert_eq!(ClipsNftContract::calculate_royalty(1_000_000, 600), Ok(60_000));
    assert_eq!(ClipsNftContract::calculate_royalty(1_000, 600), Ok(60));
    // Half up: 15 * 333 = 4995 -> (4995 + 5000) / 10000 = 0; 16 * 333 = 5328 -> 1.
    assert_eq!(ClipsNftContract::calculate_royalty(15, 333), Ok(0));
    assert_eq!(ClipsNftContract::calculate_royalty(16, 333), Ok(1));
    assert_eq!(ClipsNftContract::calculate_royalty(0, 100), Err(Error::InvalidSalePrice));
    assert_eq!(ClipsNftContract::calculate_royalty(-5, 100), Err(Error::InvalidSalePrice));
    let max = i128::MAX / 10_000;
    assert_eq!(ClipsNftContract::calculate_royalty(max + 1, 100), Err(Error::RoyaltyOverflow));
    assert_eq!(ClipsNftContract::calculate_royalty(max, 10_000), Ok((max * 10_000 + 5_000) / 10_000));
    // The product saturates at i128::MAX beyond 100%.
    assert_eq!(ClipsNftContract::calculate_royalty(max, u32::MAX), Ok(i128::MAX / 10_000));
}

#[test]
fn royalty_errors() {
    let mut s = setup();
    let kp = register_signer(&mut s);
    let (admin, user1) = (s.admin.clone(), s.user1.clone());
    let token_id = do_mint(&mut s, &user1, 1, &kp);
    assert_eq!(s.contract.royalty_info(token_id, 0), Err(Error::InvalidSalePrice));
    assert_eq!(s.contract.royalty_info(99, 10), Err(Error::InvalidTokenId));
    assert_eq!(s.contract.calculate_royalty_amount(token_id, 1_000), Ok(60));
    assert_eq!(s.contract.pay_royalty(&user1, token_id, 1_000), Err(Error::InvalidRecipient));
    assert_eq!(s.contract.pay_royalty(&user1, token_id, -1), Err(Error::InvalidSalePrice));
    assert_eq!(s.contract.pay_royalty(&user1, 99, 10), Err(Error::InvalidTokenId));
    // A royalty above 100% is refused.
    let too_high = Royalty {
        recipients: vec![RoyaltyRecipient { recipient: user1.clone(), basis_points: 9_950 }],
        asset_address: None,
    };
    assert_eq!(s.contract.set_royalty(&admin, token_id, too_high), Err(Error::RoyaltyTooHigh));
    let empty = Royalty { recipients: vec![], asset_address: None };
    assert_eq!(s.contract.set_royalty(&admin, token_id, empty), Err(Error::InvalidRoyaltySplit));
    assert_eq!(s.contract.set_royalty(&user1, token_id, default_royalty(&user1)), Err(Error::Unauthorized));
}

#[test]
fn pay_royalty_splits_add_up() {
    let mut s = setup();
    let kp = register_signer(&mut s);
    let (admin, user1, user2) = (s.admin.clone(), s.user1.clone(), s.user2.clone());
    let asset = generate(&s.env);
    let uri = b"u".to_vec();
    let sig = sign_mint(&kp, &user1, 5, &uri);
    let royalty = Royalty {
        recipients: vec![
            RoyaltyRecipient { recipient: user1.clone(), basis_points: 333 },
            RoyaltyRecipient { recipient: user2.clone(), basis_points: 333 },
        ],
        asset_address: Some(asset.clone()),
    };
    let token_id = s.contract.mint(&user1, 5, uri, royalty, false, 0, sig).unwrap();
    let payer = generate(&s.env);
    let settlement = s.contract.pay_royalty(&payer, token_id, 1_001).unwrap();
    let total: i128 = settlement.payouts.iter().map(|p| p.amount).sum();
    // 766 bps of 1001 = 76.6766 -> 77
    assert_eq!(total, s.contract.calculate_royalty_amount(token_id, 1_001).unwrap());
    assert_eq!(total, 77);
    // Cumulative rounding: 33.33 -> 33, 66.67 -> 67 (34), 76.68 -> 77 (10).
    let amounts: Vec<i128> = settlement.payouts.iter().map(|p| p.amount).collect();
    assert_eq!(amounts, vec![33, 34, 10]);
    assert_eq!(s.contract.accrued_royalties(&user1), 33);
    assert_eq!(s.contract.accrued_royalties(&user2), 34);
    assert_eq!(s.contract.accrued_royalties(&admin), 10);
    // Every payout is announced.
    let paid = s
        .contract
        .events()
        .iter()
        .filter(|e| matches!(e, ContractEvent::RoyaltyPaid(_)))
        .count();
    assert_eq!(paid, 3);
}

#[test]
fn platform_already_named_is_not_added_again() {
    let mut s = setup();
    let kp = register_signer(&mut s);
    let (admin, user1) = (s.admin.clone(), s.user1.clone());
    let uri = b"u".to_vec();
    let sig = sign_mint(&kp, &user1, 3, &uri);
    let royalty = Royalty {
        recipients: vec![
            RoyaltyRecipient { recipient: user1.clone(), basis_points: 200 },
            RoyaltyRecipient { recipient: admin.clone(), basis_points: 50 },
        ],
        asset_address: None,
    };
    let token_id = s.contract.mint(&user1, 3, uri, royalty, false, 0, sig).unwrap();
    let stored = s.contract.get_royalty(token_id).unwrap();
    assert_eq!(stored.recipients.len(), 2);
    assert_eq!(stored.recipients[1].basis_points, 50);
}

#[test]
fn approvals_and_transfer_from() {
    let mut s = setup();
    let kp = register_signer(&mut s);
    let (user1, user2) = (s.user1.clone(), s.user2.clone());
    let operator = generate(&s.env);
    let token_id = do_mint(&mut s, &user1, 1, &kp);

    // A stranger may neither approve nor move the token.
    assert_eq!(s.contract.approve(&user2, Some(operator.clone()), token_id), Err(Error::NotAuthorizedToApprove));
    assert_eq!(s.contract.transfer_from(&operator, &user1, &user2, token_id), Err(Error::Unauthorized));

    // The owner approves an operator for the token, who then moves it.
    s.contract.approve(&user1, Some(operator.clone()), token_id).unwrap();
    assert_eq!(s.contract.get_approved(token_id), Some(operator.clone()));
    s.contract.transfer_from(&operator, &user1, &user2, token_id).unwrap();
    assert_eq!(s.contract.owner_of(token_id), Ok(user2.clone()));
    // The approval is cleared by the transfer.
    assert_eq!(s.contract.get_approved(token_id), None);
    assert_eq!(s.contract.transfer_from(&operator, &user2, &user1, token_id), Err(Error::Unauthorized));

    // An operator for all of user2's tokens may approve and move them.
    s.contract.set_approval_for_all(&user2, &operator, true).unwrap();
    assert!(s.contract.is_approved_for_all(&user2, &operator));
    s.contract.approve(&operator, None, token_id).unwrap();
    s.contract.transfer_from(&operator, &user2, &user1, token_id).unwrap();
    assert_eq!(s.contract.owner_of(token_id), Ok(user1.clone()));
    // Naming the wrong owner fails.
    assert_eq!(s.contract.transfer_from(&operator, &user2, &user1, token_id), Err(Error::Unauthorized));
    s.contract.set_approval_for_all(&user2, &operator, false).unwrap();
    assert!(!s.contract.is_approved_for_all(&user2, &operator));
}

#[test]
fn transfer_errors() {
    let mut s = setup();
    let kp = register_signer(&mut s);
    let (user1, user2) = (s.user1.clone(), s.user2.clone());
    let token_id = do_mint(&mut s, &user1, 1, &kp);
    assert_eq!(s.contract.transfer(&user2, &user1, token_id), Err(Error::Unauthorized));
    assert_eq!(s.contract.transfer(&user1, &user2, 99), Err(Error::InvalidTokenId));
    assert_eq!(s.contract.burn(&user2, token_id), Err(Error::Unauthorized));
    assert_eq!(s.contract.burn(&user1, 99), Err(Error::InvalidTokenId));
    assert_eq!(s.contract.owner_of(99), Err(Error::InvalidTokenId));
}

#[test]
fn blacklisted_clip_cannot_be_minted() {
    let mut s = setup();
    let kp = register_signer(&mut s);
    let (admin, user1) = (s.admin.clone(), s.user1.clone());
    s.contract.blacklist_clip(&admin, 9).unwrap();
    let uri = b"u".to_vec();
    let sig = sign_mint(&kp, &user1, 9, &uri);
    assert_eq!(
        s.contract.mint(&user1, 9, uri, default_royalty(&user1), false, 0, sig),
        Err(Error::ClipBlacklisted)
    );
    assert_eq!(s.contract.blacklist_clip(&user1, 9), Err(Error::Unauthorized));
}

#[test]
fn burnt_clip_can_be_minted_again() {
    let mut s = setup();
    let kp = register_signer(&mut s);
    let user1 = s.user1.clone();
    let t1 = do_mint(&mut s, &user1, 4, &kp);
    assert_eq!(s.contract.clip_token_id(4), Ok(t1));
    s.contract.burn(&user1, t1).unwrap();
    assert_eq!(s.contract.clip_token_id(4), Err(Error::InvalidTokenId));
    let t2 = do_mint(&mut s, &user1, 4, &kp);
    assert_eq!(t2, t1 + 1);
    // Burning does not lower the total supply.
    assert_eq!(s.contract.total_supply(), 2);
}

#[test]
fn batch_mint_all_or_nothing() {
    let mut s = setup();
    let kp = register_signer(&mut s);
    let user1 = s.user1.clone();
    let uris = vec![b"a".to_vec(), b"b".to_vec(), b"c".to_vec()];
    let clips = vec![10u32, 11, 12];
    let sigs: Vec<[u8; 64]> = clips.iter().zip(uris.iter()).map(|(c, u)| sign_mint(&kp, &user1, *c, u)).collect();
    let ids = s
        .contract
        .batch_mint(&user1, clips.clone(), uris.clone(), default_royalty(&user1), false, 3, sigs.clone())
        .unwrap();
    assert_eq!(ids, vec![1, 2, 3]);
    assert_eq!(s.contract.collection_supply(3), 3);
    assert_eq!(s.contract.token_uri(2), Ok(b"b".to_vec()));
    match s.contract.events().last() {
        Some(ContractEvent::BatchMint(e)) => {
            assert_eq!(e.count, 3);
            assert_eq!(e.first_token_id, 1);
        }
        other => panic!("unexpected {:?}", other),
    }

    // A repeated clip inside one batch fails it as a whole.
    let clips2 = vec![20u32, 20];
    let uris2 = vec![b"x".to_vec(), b"x".to_vec()];
    let sigs2: Vec<[u8; 64]> = clips2.iter().zip(uris2.iter()).map(|(c, u)| sign_mint(&kp, &user1, *c, u)).collect();
    assert_eq!(
        s.contract.batch_mint(&user1, clips2, uris2, default_royalty(&user1), false, 3, sigs2),
        Err(Error::TokenAlreadyMinted)
    );
    assert_eq!(s.contract.total_supply(), 3);
    assert_eq!(s.contract.clip_token_id(20), Err(Error::InvalidTokenId));

    // Mismatched lengths.
    assert_eq!(
        s.contract.batch_mint(&user1, vec![30], vec![], default_royalty(&user1), false, 0, vec![]),
        Err(Error::InvalidRoyaltySplit)
    );
    // An empty batch mints nothing and announces a count of zero.
    assert_eq!(
        s.contract.batch_mint(&user1, vec![], vec![], default_royalty(&user1), false, 0, vec![]),
        Ok(vec![])
    );
}

#[test]
fn tokens_of_owner_lists_ascending() {
    let mut s = setup();
    let kp = register_signer(&mut s);
    let (user1, user2) = (s.user1.clone(), s.user2.clone());
    let a = do_mint(&mut s, &user1, 1, &kp);
    let b = do_mint(&mut s, &user2, 2, &kp);
    let c = do_mint(&mut s, &user1, 3, &kp);
    assert_eq!(s.contract.tokens_of_owner(&user1), vec![a, c]);
    assert_eq!(s.contract.tokens_of_owner(&user2), vec![b]);
    s.contract.burn(&user1, a).unwrap();
    assert_eq!(s.contract.tokens_of_owner(&user1), vec![c]);
}

#[test]
fn metadata_and_names() {
    let mut s = setup();
    let kp = register_signer(&mut s);
    let (admin, user1, user2) = (s.admin.clone(), s.user1.clone(), s.user2.clone());
    assert_eq!(s.contract.name(), b"ClipCash Clips".to_vec());
    assert_eq!(s.contract.symbol(), b"CLIP".to_vec());
    s.contract.set_name(&admin, b"Clips".to_vec()).unwrap();
    s.contract.set_symbol(&admin, b"CLP".to_vec()).unwrap();
    assert_eq!(s.contract.name(), b"Clips".to_vec());
    assert_eq!(s.contract.symbol(), b"CLP".to_vec());
    assert_eq!(s.contract.set_name(&user1, b"x".to_vec()), Err(Error::Unauthorized));
    let token_id = do_mint(&mut s, &user1, 1, &kp);
    assert_eq!(s.contract.set_token_uri(&user2, token_id, b"new".to_vec()), Err(Error::Unauthorized));
    s.contract.set_token_uri(&user1, token_id, b"new".to_vec()).unwrap();
    assert_eq!(s.contract.get_metadata(token_id), Ok(b"new".to_vec()));
    assert_eq!(s.contract.get_clip_id(token_id), Ok(1));
    assert!(!s.contract.is_soulbound(token_id));
    assert!(!s.contract.is_soulbound(99));
    assert_eq!(s.contract.version(), VERSION);
    assert_eq!(s.contract.get_signer(), Some(kp.verifying_key().to_bytes()));
}

#[test]
fn royalty_recipient_updates() {
    let mut s = setup();
    let kp = register_signer(&mut s);
    let (admin, user1, user2) = (s.admin.clone(), s.user1.clone(), s.user2.clone());
    let token_id = do_mint(&mut s, &user1, 1, &kp);
    assert_eq!(s.contract.update_royalty_recipient(&user2, token_id, &user2), Err(Error::Unauthorized));
    s.contract.take_events();
    s.contract.update_royalty_recipient(&user1, token_id, &user2).unwrap();
    let r = s.contract.get_royalty(token_id).unwrap();
    assert_eq!(r.recipients[0].recipient, user2);
    assert_eq!(r.recipients[0].basis_points, 500);
    assert_eq!(s.contract.take_events().len(), 1);
    // set_royalty announces a change of first recipient only.
    s.contract.set_royalty(&admin, token_id, default_royalty(&user2)).unwrap();
    assert_eq!(s.contract.take_events().len(), 0);
    s.contract.set_royalty(&admin, token_id, default_royalty(&user1)).unwrap();
    assert_eq!(s.contract.take_events().len(), 1);
}

#[test]
fn admin_only_calls() {
    let mut s = setup();
    let (admin, user1) = (s.admin.clone(), s.user1.clone());
    assert_eq!(s.contract.pause(&user1, 5), Err(Error::Unauthorized));
    assert_eq!(s.contract.set_signer(&user1, [1u8; 32]), Err(Error::Unauthorized));
    assert_eq!(s.contract.upgrade(&user1, [2u8; 32]), Err(Error::Unauthorized));
    s.contract.upgrade(&admin, [2u8; 32]).unwrap();
    s.contract.pause(&admin, 100).unwrap();
    assert_eq!(s.contract.unpause(&admin, 100 + PAUSE_TIMELOCK_LEDGERS - 1), Err(Error::TimelockActive));
    assert_eq!(s.contract.unpause(&user1, 100 + PAUSE_TIMELOCK_LEDGERS), Err(Error::Unauthorized));
    s.contract.unpause(&admin, 100 + PAUSE_TIMELOCK_LEDGERS).unwrap();
    // A ledger before the pause counts as no time elapsed.
    s.contract.pause(&admin, 50_000).unwrap();
    assert_eq!(s.contract.unpause(&admin, 10), Err(Error::TimelockActive));
}

#[test]
fn error_codes() {
    assert_eq!(Error::Unauthorized.code(), 1);
    assert_eq!(Error::InvalidSignature.code(), 8);
    assert_eq!(Error::NothingToClaim.code(), 16);
}

#[test]
fn uninitialized_contract_reads() {
    let c = ClipsNftContract::new();
    assert_eq!(c.total_supply(), 0);
    assert!(!c.is_paused());
    assert_eq!(c.pause_requested_at(), 0);
    assert_eq!(c.get_signer(), None);
}

#[test]
fn state_survives_parts_round_trip() {
    let mut s = setup();
    let kp = register_signer(&mut s);
    let asset = generate(&s.env);
    let (admin, user1, user2) = (s.admin.clone(), s.user1.clone(), s.user2.clone());
    let a = mint_with_asset(&mut s, &user1, 1, &kp, &asset);
    let b = do_mint(&mut s, &user2, 2, &kp);
    let payer = generate(&s.env);
    s.contract.pay_royalty(&payer, a, 10_000).unwrap();
    s.contract.approve(&user2, Some(user1.clone()), b).unwrap();
    s.contract.set_approval_for_all(&user1, &user2, true).unwrap();
    s.contract.blacklist_clip(&admin, 9).unwrap();
    s.contract.set_name(&admin, b"Renamed".to_vec()).unwrap();
    s.contract.pause(&admin, 42).unwrap();

    let restored = ClipsNftContract::from_parts(s.contract.to_parts());
    assert!(restored.events().is_empty());
    assert_eq!(restored.total_supply(), 2);
    assert_eq!(restored.owner_of(a), Ok(user1.clone()));
    assert_eq!(restored.owner_of(b), Ok(user2.clone()));
    assert_eq!(restored.tokens_of_owner(&user1), vec![a]);
    assert_eq!(restored.clip_token_id(2), Ok(b));
    assert_eq!(restored.accrued_royalties(&user1), 500);
    assert_eq!(restored.get_approved(b), Some(user1.clone()));
    assert!(restored.is_approved_for_all(&user1, &user2));
    assert!(!restored.is_approved_for_all(&user2, &user1));
    assert_eq!(restored.name(), b"Renamed".to_vec());
    assert_eq!(restored.symbol(), b"CLIP".to_vec());
    assert!(restored.is_paused());
    assert_eq!(restored.pause_requested_at(), 42);
    assert_eq!(restored.get_signer(), Some(kp.verifying_key().to_bytes()));
    assert_eq!(restored.get_royalty(a).unwrap().asset_address, Some(asset));

    // The restored contract keeps refusing what it refused before.
    let mut restored = restored;
    restored.unpause(&admin, 42 + PAUSE_TIMELOCK_LEDGERS).unwrap();
    let uri = b"ipfs://x".to_vec();
    let sig = sign_mint(&kp, &user1, 9, &uri);
    assert_eq!(
        restored.mint(&user1, 9, uri, default_royalty(&user1), false, 0, sig),
        Err(Error::ClipBlacklisted)
    );
}

#[test]
fn test_freighter_wallet_simulation_full_mint_and_royalty_flow() {
    let mut s = setup();
    let kp = register_signer(&mut s);
    let creator = generate(&s.env);

    // Mint: the backend signs, the creator's wallet submits.
    let clip_id = 777u32;
    let metadata_uri = b"ipfs://QmFreighterClip777".to_vec();
    let platform_bps = 100u32;
    let creator_bps = 500u32;
    let royalty = Royalty {
        recipients: vec![RoyaltyRecipient { recipient: creator.clone(), basis_points: creator_bps }],
        asset_address: None,
    };
    let backend_signature = sign_mint(&kp, &creator, clip_id, &metadata_uri);
    let token_id = s
        .contract
        .mint(&creator, clip_id, metadata_uri.clone(), royalty, false, 0, backend_signature)
        .unwrap();
    assert_eq!(token_id, 1);
    assert_eq!(s.contract.owner_of(token_id), Ok(creator.clone()));
    assert_eq!(s.contract.token_uri(token_id), Ok(metadata_uri));

    // Royalty quote for a sale.
    let sale_price = 1_000_i128;
    let royalty_info = s.contract.royalty_info(token_id, sale_price).unwrap();
    assert_eq!(royalty_info.asset_address, None);
    assert!(royalty_info.royalty_amount > 0);

    // The stored royalty: the creator's split, then the platform's.
    let stored = s.contract.get_royalty(token_id).unwrap();
    assert_eq!(stored.recipients.len(), 2);
    assert_eq!(stored.recipients[0].recipient, creator);
    assert_eq!(stored.recipients[0].basis_points, creator_bps);
    assert_eq!(stored.recipients[1].basis_points, platform_bps);
}
