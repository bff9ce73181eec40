//! Initialization and the admin's entry points: the mint signer, code
//! upgrades, the pause with its timelock, the clip blacklist, and the
//! collection's name and symbol.
use vstd::prelude::*;
use crate::address::Address;
use crate::error::Error;
use crate::nft::events::{ContractEvent, EventView, UpgradeEvent, BlacklistEvent};
use crate::nft::state::{ClipsNftContract, NftView, PAUSE_TIMELOCK_LEDGERS};

verus! {

broadcast use vstd::std_specs::hash::group_hash_axioms;

/// The ledgers elapsed since the pause was requested, 0 if `now` lies before it.
pub open spec fn ledgers_since_pause(s: NftView, now: u32) -> int {
    if now >= s.pause_requested_at { now - s.pause_requested_at } else { 0 }
}

/// Whether the pause timelock has run out at ledger `now`.
pub open spec fn timelock_elapsed(s: NftView, now: u32) -> bool {
    ledgers_since_pause(s, now) >= PAUSE_TIMELOCK_LEDGERS
}

/// The outcome of an admin-only call by `admin`.
pub open spec fn admin_result(s: NftView, admin: Seq<u8>) -> Result<(), Error> {
    if s.admin == Some(admin) { Ok(()) } else { Err(Error::Unauthorized) }
}

/// The outcome of `unpause` by `admin` at ledger `now`.
pub open spec fn unpause_result(s: NftView, admin: Seq<u8>, now: u32) -> Result<(), Error> {
    if s.admin != Some(admin) {
        Err(Error::Unauthorized)
    } else if !timelock_elapsed(s, now) {
        Err(Error::TimelockActive)
    } else {
        Ok(())
    }
}

impl ClipsNftContract {
    /// Initialize the contract with its admin, who is also the platform's
    /// royalty recipient.
    pub fn init(&mut self, admin: Address)
        requires
            old(self)@.admin is None,
        ensures
            final(self)@ == (NftView {
                admin: Some(admin@),
                next_token_id: 1,
                paused: false,
                platform_recipient: Some(admin@),
                ..old(self)@
            }),
            old(self).wf() ==> final(self).wf(),
    {
        self.platform_recipient = Some(admin.duplicate());
        self.admin = Some(admin);
        self.next_token_id = 1;
        self.paused = false;
    }

    pub fn set_signer(&mut self, admin: &Address, pubkey: [u8; 32]) -> (r: Result<(), Error>)
        requires
            old(self)@.admin is Some,
        ensures
            r == admin_result(old(self)@, admin@),
            r is Ok ==> final(self)@ == (NftView { signer: Some(pubkey@), ..old(self)@ }),
            r is Err ==> final(self)@ == old(self)@,
            old(self).wf() ==> final(self).wf(),
    {
        self.require_admin(admin)?;
        self.signer = Some(pubkey);
        Ok(())
    }

    /// Announce an upgrade of the contract code to `new_wasm_hash`; the host
    /// installs the code.
    pub fn upgrade(&mut self, admin: &Address, new_wasm_hash: [u8; 32]) -> (r: Result<(), Error>)
        requires
            old(self)@.admin is Some,
        ensures
            r == admin_result(old(self)@, admin@),
            r is Ok ==> final(self)@ == old(self)@.emit(EventView::Upgrade { new_wasm_hash: new_wasm_hash@ }),
            r is Err ==> final(self)@ == old(self)@,
            old(self).wf() ==> final(self).wf(),
    {
        self.require_admin(admin)?;
        self.emit(ContractEvent::Upgrade(UpgradeEvent { new_wasm_hash }));
        Ok(())
    }

    /// Pause the contract immediately. Mint and transfer are blocked at once.
    /// The 24-hour timelock must elapse before `unpause` is accepted.
    pub fn pause(&mut self, admin: &Address, now: u32) -> (r: Result<(), Error>)
        requires
            old(self)@.admin is Some,
        ensures
            r == admin_result(old(self)@, admin@),
            r is Ok ==> final(self)@ == (NftView { paused: true, pause_requested_at: now, ..old(self)@ }).emit(
                EventView::Paused { ledger: now },
            ),
            r is Err ==> final(self)@ == old(self)@,
            old(self).wf() ==> final(self).wf(),
    {
        self.require_admin(admin)?;
        self.paused = true;
        self.pause_requested_at = now;
        self.emit(ContractEvent::Paused(now));
        Ok(())
    }

    /// Unpause the contract. Requires that at least PAUSE_TIMELOCK_LEDGERS
    /// (~24 h) have passed since `pause` was called.
    pub fn unpause(&mut self, admin: &Address, now: u32) -> (r: Result<(), Error>)
        requires
            old(self)@.admin is Some,
        ensures
            r == unpause_result(old(self)@, admin@, now),
            r is Ok ==> final(self)@ == (NftView { paused: false, ..old(self)@ }).emit(
                EventView::Unpaused { ledger: now },
            ),
            r is Err ==> final(self)@ == old(self)@,
            old(self).wf() ==> final(self).wf(),
    {
        self.require_admin(admin)?;
        let paused_at = self.pause_requested_at;
        if now.saturating_sub(paused_at) < PAUSE_TIMELOCK_LEDGERS {
            return Err(Error::TimelockActive);
        }
        self.paused = false;
        self.emit(ContractEvent::Unpaused(now));
        Ok(())
    }

    pub fn blacklist_clip(&mut self, admin: &Address, clip_id: u32) -> (r: Result<(), Error>)
        requires
            old(self)@.admin is Some,
        ensures
            r == admin_result(old(self)@, admin@),
            r is Ok ==> final(self)@ == (NftView {
                blacklisted: old(self)@.blacklisted.insert(clip_id),
                ..old(self)@
            }).emit(EventView::Blacklist { clip_id }),
            r is Err ==> final(self)@ == old(self)@,
            old(self).wf() ==> final(self).wf(),
    {
        self.require_admin(admin)?;
        self.blacklisted.insert(clip_id);
        self.emit(ContractEvent::Blacklist(BlacklistEvent { clip_id }));
        Ok(())
    }

    pub fn set_name(&mut self, admin: &Address, name: Vec<u8>) -> (r: Result<(), Error>)
        requires
            old(self)@.admin is Some,
        ensures
            r == admin_result(old(self)@, admin@),
            r is Ok ==> final(self)@ == (NftView { name: Some(name@), ..old(self)@ }),
            r is Err ==> final(self)@ == old(self)@,
            old(self).wf() ==> final(self).wf(),
    {
        self.require_admin(admin)?;
        self.name = Some(name);
        Ok(())
    }

    pub fn set_symbol(&mut self, admin: &Address, symbol: Vec<u8>) -> (r: Result<(), Error>)
        requires
            old(self)@.admin is Some,
        ensures
            r == admin_result(old(self)@, admin@),
            r is Ok ==> final(self)@ == (NftView { symbol: Some(symbol@), ..old(self)@ }),
            r is Err ==> final(self)@ == old(self)@,
            old(self).wf() ==> final(self).wf(),
    {
        self.require_admin(admin)?;
        self.symbol = Some(symbol);
        Ok(())
    }
}

} // verus!
