//! The contract state as plain lists of entries, for storing it and loading
//! it again.
use vstd::prelude::*;
use std::collections::{HashMap, HashSet};
use vstd::std_specs::iter::IteratorSpec;
use crate::address::{Address, opt_address_view, duplicate_opt_address};
use crate::table::{Table, TableKey, OperatorKey, entries_map, last_entry_at, lemma_entries_map_last, lemma_entries_map_absent};
use crate::nft::events::{ContractEvent, EventView};
use crate::nft::state::{ClipsNftContract, NftView, opt_bytes_view, opt_key_view};
use crate::nft::types::{TokenData, TokenView, copy_bytes};

verus! {

broadcast use vstd::std_specs::hash::group_hash_axioms;

/// The contract state, events aside, as lists of entries. In each list a
/// later entry for a key takes precedence over an earlier one.
pub struct NftParts {
    pub admin: Option<Address>,
    pub signer: Option<[u8; 32]>,
    pub platform_recipient: Option<Address>,
    pub paused: bool,
    pub pause_requested_at: u32,
    pub name: Option<Vec<u8>>,
    pub symbol: Option<Vec<u8>>,
    pub next_token_id: u32,
    pub tokens: Vec<(u32, TokenData)>,
    pub clip_tokens: Vec<(u32, u32)>,
    pub collection_counts: Vec<(u32, u32)>,
    pub blacklisted: Vec<u32>,
    pub approved: Vec<(u32, Address)>,
    pub operators: Vec<(OperatorKey, bool)>,
    pub accrued: Vec<(Address, i128)>,
}

/// The state that `p` describes, with no events.
pub open spec fn parts_view(p: NftParts) -> NftView {
    NftView {
        admin: opt_address_view(p.admin),
        signer: opt_key_view(p.signer),
        platform_recipient: opt_address_view(p.platform_recipient),
        paused: p.paused,
        pause_requested_at: p.pause_requested_at,
        name: opt_bytes_view(p.name),
        symbol: opt_bytes_view(p.symbol),
        next_token_id: p.next_token_id,
        tokens: entries_map(p.tokens@.map_values(|e: (u32, TokenData)| (e.0, e.1@))),
        clip_tokens: entries_map(p.clip_tokens@),
        collection_counts: entries_map(p.collection_counts@),
        blacklisted: p.blacklisted@.to_set(),
        approved: entries_map(p.approved@.map_values(|e: (u32, Address)| (e.0, e.1@))),
        operators: entries_map(p.operators@.map_values(|e: (OperatorKey, bool)| (e.0.key_view(), e.1))),
        accrued: entries_map(p.accrued@.map_values(|e: (Address, i128)| (e.0.key_view(), e.1))),
        events: Seq::empty(),
    }
}

/// The keys of `m`, each once, in no particular order.
fn u32_keys<V>(m: &HashMap<u32, V>) -> (r: Vec<u32>)
    ensures
        r@.to_set() == m@.dom(),
        r@.no_duplicates(),
{
    let mut out: Vec<u32> = Vec::new();
    for k in it: m.keys()
        invariant
            out@ == it.seq().take(it.index()).unref(),
    {
        out.push(*k);
    }
    proof {
        let ks = vstd::std_specs::hash::spec_keys_iter(m).remaining();
        assert(out@ =~= ks.unref());
    }
    out
}

/// The members of `s`, each once, in no particular order.
fn u32_members(s: &HashSet<u32>) -> (r: Vec<u32>)
    ensures
        r@.to_set() == s@,
{
    let mut out: Vec<u32> = Vec::new();
    for k in it: s.iter()
        invariant
            out@ == it.seq().take(it.index()).unref(),
    {
        out.push(*k);
    }
    proof {
        let ks = vstd::std_specs::hash::spec_hash_keys_iter(s).remaining();
        assert(out@ =~= ks.unref());
    }
    out
}

/// Entries with distinct keys that cover the domain of `m`, each holding
/// the value `m` maps its key to, denote `m`.
proof fn lemma_distinct_entries_map<W>(keys: Seq<u32>, entries: Seq<(u32, W)>, m: Map<u32, W>)
    requires
        keys.no_duplicates(),
        keys.to_set() == m.dom(),
        entries.len() == keys.len(),
        forall|i: int| 0 <= i < keys.len() ==> #[trigger] entries[i] == (keys[i], m[keys[i]]),
    ensures
        entries_map(entries) == m,
{
    assert forall|k: u32| #[trigger] m.contains_key(k) implies entries_map(entries).contains_key(k)
        && entries_map(entries)[k] == m[k] by {
        assert(keys.to_set().contains(k));
        let i = choose|i: int| 0 <= i < keys.len() && keys[i] == k;
        assert(entries[i] == (keys[i], m[keys[i]]));
        assert forall|j: int| i < j < entries.len() implies entries[j].0 != k by {
            assert(entries[j] == (keys[j], m[keys[j]]));
        }
        assert(last_entry_at(entries, k, i));
        lemma_entries_map_last(entries, k, i);
    }
    assert forall|k: u32| #[trigger] entries_map(entries).contains_key(k) implies m.contains_key(k) by {
        if !m.contains_key(k) {
            assert forall|j: int| 0 <= j < entries.len() implies entries[j].0 != k by {
                assert(entries[j] == (keys[j], m[keys[j]]));
                assert(keys.to_set().contains(keys[j]));
            }
            lemma_entries_map_absent(entries, k);
        }
    }
    assert(entries_map(entries) =~= m);
}

impl ClipsNftContract {
    /// The state, events aside, as lists of entries.
    pub fn to_parts(&self) -> (p: NftParts)
        ensures
            parts_view(p) == (NftView { events: Seq::empty(), ..self@ }),
    {
        // tokens
        let keys = u32_keys(&self.tokens);
        let mut tokens: Vec<(u32, TokenData)> = Vec::new();
        let mut i: usize = 0;
        while i < keys.len()
            invariant
                keys@.to_set() == self.tokens@.dom(),
                i <= keys.len(),
                tokens@.len() == i,
                forall|j: int| 0 <= j < i ==> #[trigger] tokens@[j].0 == keys@[j]
                    && tokens@[j].1@ == self@.tokens[keys@[j]],
            decreases keys.len() - i,
        {
            let k = keys[i];
            proof {
                assert(keys@.to_set().contains(k));
            }
            match self.tokens.get(&k) {
                Some(t) => tokens.push((k, t.duplicate())),
                None => {
                    proof {
                        assert(false);
                    }
                },
            }
            i = i + 1;
        }
        proof {
            let ev = tokens@.map_values(|e: (u32, TokenData)| (e.0, e.1@));
            assert forall|j: int| 0 <= j < keys@.len() implies #[trigger] ev[j] == (keys@[j], self@.tokens[keys@[j]]) by {
                assert(tokens@[j].0 == keys@[j]);
            }
            assert(self@.tokens.dom() =~= self.tokens@.dom());
            lemma_distinct_entries_map(keys@, ev, self@.tokens);
        }
        // clip -> token
        let ckeys = u32_keys(&self.clip_tokens);
        let mut clip_tokens: Vec<(u32, u32)> = Vec::new();
        let mut i: usize = 0;
        while i < ckeys.len()
            invariant
                ckeys@.to_set() == self.clip_tokens@.dom(),
                i <= ckeys.len(),
                clip_tokens@.len() == i,
                forall|j: int| 0 <= j < i ==> #[trigger] clip_tokens@[j] == (ckeys@[j], self@.clip_tokens[ckeys@[j]]),
            decreases ckeys.len() - i,
        {
            let k = ckeys[i];
            proof {
                assert(ckeys@.to_set().contains(k));
            }
            match self.clip_tokens.get(&k) {
                Some(t) => clip_tokens.push((k, *t)),
                None => {
                    proof {
                        assert(false);
                    }
                },
            }
            i = i + 1;
        }
        proof {
            lemma_distinct_entries_map(ckeys@, clip_tokens@, self@.clip_tokens);
        }
        // collection -> count
        let nkeys = u32_keys(&self.collection_counts);
        let mut collection_counts: Vec<(u32, u32)> = Vec::new();
        let mut i: usize = 0;
        while i < nkeys.len()
            invariant
                nkeys@.to_set() == self.collection_counts@.dom(),
                i <= nkeys.len(),
                collection_counts@.len() == i,
                forall|j: int| 0 <= j < i ==> #[trigger] collection_counts@[j] == (nkeys@[j], self@.collection_counts[nkeys@[j]]),
            decreases nkeys.len() - i,
        {
            let k = nkeys[i];
            proof {
                assert(nkeys@.to_set().contains(k));
            }
            match self.collection_counts.get(&k) {
                Some(t) => collection_counts.push((k, *t)),
                None => {
                    proof {
                        assert(false);
                    }
                },
            }
            i = i + 1;
        }
        proof {
            lemma_distinct_entries_map(nkeys@, collection_counts@, self@.collection_counts);
        }
        // token -> approved address
        let akeys = u32_keys(&self.approved);
        let mut approved: Vec<(u32, Address)> = Vec::new();
        let mut i: usize = 0;
        while i < akeys.len()
            invariant
                akeys@.to_set() == self.approved@.dom(),
                i <= akeys.len(),
                approved@.len() == i,
                forall|j: int| 0 <= j < i ==> #[trigger] approved@[j].0 == akeys@[j]
                    && approved@[j].1@ == self@.approved[akeys@[j]],
            decreases akeys.len() - i,
        {
            let k = akeys[i];
            proof {
                assert(akeys@.to_set().contains(k));
            }
            match self.approved.get(&k) {
                Some(a) => approved.push((k, a.duplicate())),
                None => {
                    proof {
                        assert(false);
                    }
                },
            }
            i = i + 1;
        }
        proof {
            let av = approved@.map_values(|e: (u32, Address)| (e.0, e.1@));
            assert forall|j: int| 0 <= j < akeys@.len() implies #[trigger] av[j] == (akeys@[j], self@.approved[akeys@[j]]) by {
                assert(approved@[j].0 == akeys@[j]);
            }
            assert(self@.approved.dom() =~= self.approved@.dom());
            lemma_distinct_entries_map(akeys@, av, self@.approved);
        }
        let p = NftParts {
            admin: duplicate_opt_address(&self.admin),
            signer: self.signer,
            platform_recipient: duplicate_opt_address(&self.platform_recipient),
            paused: self.paused,
            pause_requested_at: self.pause_requested_at,
            name: match &self.name {
                Some(n) => Some(copy_bytes(n)),
                None => None,
            },
            symbol: match &self.symbol {
                Some(n) => Some(copy_bytes(n)),
                None => None,
            },
            next_token_id: self.next_token_id,
            tokens,
            clip_tokens,
            collection_counts,
            blacklisted: u32_members(&self.blacklisted),
            approved,
            operators: self.operators.to_entries(),
            accrued: self.accrued.to_entries(),
        };
        proof {
            assert(parts_view(p).tokens == self@.tokens);
            assert(parts_view(p).approved == self@.approved);
            assert(parts_view(p) =~= (NftView { events: Seq::empty(), ..self@ }));
        }
        p
    }

    /// The state that `parts` describes, with no events.
    pub fn from_parts(parts: NftParts) -> (c: ClipsNftContract)
        ensures
            c@ == parts_view(parts),
    {
        let ghost pv = parts_view(parts);
        let NftParts {
            admin,
            signer,
            platform_recipient,
            paused,
            pause_requested_at,
            name,
            symbol,
            next_token_id,
            tokens: token_entries,
            clip_tokens: clip_entries,
            collection_counts: count_entries,
            blacklisted: blacklist_entries,
            approved: approved_entries,
            operators,
            accrued,
        } = parts;
        let mut tokens: HashMap<u32, TokenData> = HashMap::new();
        let ghost tev = token_entries@.map_values(|e: (u32, TokenData)| (e.0, e.1@));
        let mut i: usize = 0;
        while i < token_entries.len()
            invariant
                tev == token_entries@.map_values(|e: (u32, TokenData)| (e.0, e.1@)),
                i <= token_entries.len(),
                tokens@.map_values(|t: TokenData| t@) == entries_map(tev.subrange(0, i as int)),
            decreases token_entries.len() - i,
        {
            let e = &token_entries[i];
            tokens.insert(e.0, e.1.duplicate());
            proof {
                assert(tev.subrange(0, i + 1).drop_last() =~= tev.subrange(0, i as int));
                assert(tokens@.map_values(|t: TokenData| t@) =~= entries_map(tev.subrange(0, i + 1)));
            }
            i = i + 1;
        }
        proof {
            assert(tev.subrange(0, token_entries@.len() as int) =~= tev);
        }
        let mut clip_tokens: HashMap<u32, u32> = HashMap::new();
        let mut i: usize = 0;
        while i < clip_entries.len()
            invariant
                i <= clip_entries.len(),
                clip_tokens@ == entries_map(clip_entries@.subrange(0, i as int)),
            decreases clip_entries.len() - i,
        {
            let e = clip_entries[i];
            clip_tokens.insert(e.0, e.1);
            proof {
                assert(clip_entries@.subrange(0, i + 1).drop_last() =~= clip_entries@.subrange(0, i as int));
            }
            i = i + 1;
        }
        proof {
            assert(clip_entries@.subrange(0, clip_entries@.len() as int) =~= clip_entries@);
        }
        let mut collection_counts: HashMap<u32, u32> = HashMap::new();
        let mut i: usize = 0;
        while i < count_entries.len()
            invariant
                i <= count_entries.len(),
                collection_counts@ == entries_map(count_entries@.subrange(0, i as int)),
            decreases count_entries.len() - i,
        {
            let e = count_entries[i];
            collection_counts.insert(e.0, e.1);
            proof {
                assert(count_entries@.subrange(0, i + 1).drop_last() =~= count_entries@.subrange(0, i as int));
            }
            i = i + 1;
        }
        proof {
            assert(count_entries@.subrange(0, count_entries@.len() as int) =~= count_entries@);
        }
        let mut blacklisted: HashSet<u32> = HashSet::new();
        let mut i: usize = 0;
        while i < blacklist_entries.len()
            invariant
                i <= blacklist_entries.len(),
                blacklisted@ == blacklist_entries@.subrange(0, i as int).to_set(),
            decreases blacklist_entries.len() - i,
        {
            let c = blacklist_entries[i];
            blacklisted.insert(c);
            proof {
                assert(blacklist_entries@.subrange(0, i + 1) =~= blacklist_entries@.subrange(0, i as int).push(c));
                blacklist_entries@.subrange(0, i as int).lemma_push_to_set_commute(c);
                assert(blacklisted@ =~= blacklist_entries@.subrange(0, i + 1).to_set());
            }
            i = i + 1;
        }
        proof {
            assert(blacklist_entries@.subrange(0, blacklist_entries@.len() as int) =~= blacklist_entries@);
        }
        let mut approved: HashMap<u32, Address> = HashMap::new();
        let ghost aev = approved_entries@.map_values(|e: (u32, Address)| (e.0, e.1@));
        let mut i: usize = 0;
        while i < approved_entries.len()
            invariant
                aev == approved_entries@.map_values(|e: (u32, Address)| (e.0, e.1@)),
                i <= approved_entries.len(),
                approved@.map_values(|a: Address| a@) == entries_map(aev.subrange(0, i as int)),
            decreases approved_entries.len() - i,
        {
            let e = &approved_entries[i];
            approved.insert(e.0, e.1.duplicate());
            proof {
                assert(aev.subrange(0, i + 1).drop_last() =~= aev.subrange(0, i as int));
                assert(approved@.map_values(|a: Address| a@) =~= entries_map(aev.subrange(0, i + 1)));
            }
            i = i + 1;
        }
        proof {
            assert(aev.subrange(0, approved_entries@.len() as int) =~= aev);
        }
        let c = ClipsNftContract {
            admin,
            signer,
            platform_recipient,
            paused,
            pause_requested_at,
            name,
            symbol,
            next_token_id,
            tokens,
            clip_tokens,
            collection_counts,
            blacklisted,
            approved,
            operators: Table::from_entries(operators),
            accrued: Table::from_entries(accrued),
            events: Vec::new(),
        };
        proof {
            assert(c@.events =~= Seq::<EventView>::empty());
            assert(c@ =~= pv);
        }
        c
    }
}

} // verus!
