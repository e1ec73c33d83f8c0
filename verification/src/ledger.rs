//! Observable ledger model: the state of deployed multi-asset contracts and
//! of per-identity balances, as a client can observe it through calls.
//!
//! The model is append-biased: balance changes push a shadowing entry and the
//! current balance of a key is the amount of its most recent entry. Asset
//! records are shadowed the same way, so every lookup is defined as a scan
//! from the most recent entry backwards.

use vstd::prelude::*;

use crate::error::Error;
use crate::identity::{id_key, Fingerprint, IdentityRef};

verus! {

/// The logical attributes of one registered asset, as observed through
/// queries.
pub struct AssetRecord {
    pub asset_id: Fingerprint,
    pub name: String,
    pub symbol: String,
    pub decimals: u8,
    pub restricted: bool,
    pub supply: u64,
}

/// One deployed multi-asset contract: its address, its ownership state and
/// its asset registry. `owner == None` is the transient unowned state between
/// code submission and the one-time ownership initialization.
pub struct ContractModel {
    pub address: Fingerprint,
    pub owner: Option<IdentityRef>,
    pub assets: Vec<AssetRecord>,
    pub asset_count: u64,
}

/// One balance observation: the most recent entry for a (holder, asset) key
/// gives the holder's current balance of that asset.
pub struct BalanceEntry {
    pub holder: IdentityRef,
    pub asset: Fingerprint,
    pub amount: u64,
}

/// The world as the client observes it: deployed contracts, balances, the
/// base currency that pays transaction fees, the fee per transactional call,
/// and a count of network round trips issued so far.
pub struct Ledger {
    pub contracts: Vec<ContractModel>,
    pub balances: Vec<BalanceEntry>,
    pub base_asset: Fingerprint,
    pub fee: u64,
    pub rounds: Ghost<nat>,
}

/// The balance of `(who, asset)` in a sequence of entries: the amount of the
/// most recent matching entry, or 0 if none exists.
pub open spec fn entries_bal(
    entries: Seq<BalanceEntry>,
    who: (bool, Seq<u8>),
    asset: Seq<u8>,
) -> u64
    decreases entries.len(),
{
    if entries.len() == 0 {
        0u64
    } else if id_key(entries.last().holder) == who && entries.last().asset@ == asset {
        entries.last().amount
    } else {
        entries_bal(entries.drop_last(), who, asset)
    }
}

/// The balance of `(who, asset)` in the ledger.
pub open spec fn bal(l: Ledger, who: (bool, Seq<u8>), asset: Seq<u8>) -> u64 {
    entries_bal(l.balances@, who, asset)
}

/// The most recent record registered under an asset id, if any.
pub open spec fn record_of(assets: Seq<AssetRecord>, id: Seq<u8>) -> Option<AssetRecord>
    decreases assets.len(),
{
    if assets.len() == 0 {
        None
    } else if assets.last().asset_id@ == id {
        Some(assets.last())
    } else {
        record_of(assets.drop_last(), id)
    }
}

/// The most recent record registered under an asset name, if any.
pub open spec fn record_by_name(assets: Seq<AssetRecord>, name: Seq<char>) -> Option<AssetRecord>
    decreases assets.len(),
{
    if assets.len() == 0 {
        None
    } else if assets.last().name@ == name {
        Some(assets.last())
    } else {
        record_by_name(assets.drop_last(), name)
    }
}

/// Whether some asset is registered under the given (name, symbol) pair.
pub open spec fn has_pair(assets: Seq<AssetRecord>, name: Seq<char>, symbol: Seq<char>) -> bool {
    exists|i: int|
        0 <= i < assets.len() && (#[trigger] assets[i]).name@ == name && assets[i].symbol@
            == symbol
}

/// The contract deployed at an address, if any (the most recent entry, though
/// deployment refuses address collisions, so there is at most one).
pub open spec fn the_contract(cs: Seq<ContractModel>, addr: Seq<u8>) -> Option<ContractModel>
    decreases cs.len(),
{
    if cs.len() == 0 {
        None
    } else if cs.last().address@ == addr {
        Some(cs.last())
    } else {
        the_contract(cs.drop_last(), addr)
    }
}

/// Everything of two ledgers is the same except possibly the round counter.
pub open spec fn same_except_rounds(a: Ledger, b: Ledger) -> bool {
    &&& b.contracts == a.contracts
    &&& b.balances == a.balances
    &&& b.base_asset == a.base_asset
    &&& b.fee == a.fee
}

/// Replacing the entry at the last index that matches its own address leaves
/// every other contract lookup unchanged.
pub proof fn lemma_the_contract_update(cs: Seq<ContractModel>, i: int, c: ContractModel)
    requires
        0 <= i < cs.len(),
        cs[i].address@ == c.address@,
        forall|j: int| i < j < cs.len() ==> (#[trigger] cs[j]).address@ != c.address@,
    ensures
        forall|a: Seq<u8>|
            #[trigger] the_contract(cs.update(i, c), a) == if a == c.address@ {
                Some(c)
            } else {
                the_contract(cs, a)
            },
    decreases cs.len(),
{
    let cs2 = cs.update(i, c);
    assert(cs2.len() == cs.len());
    if i == cs.len() - 1 {
        assert(cs2.last() == c);
        assert(cs2.drop_last() =~= cs.drop_last());
        assert forall|a: Seq<u8>|
            #[trigger] the_contract(cs2, a) == if a == c.address@ {
                Some(c)
            } else {
                the_contract(cs, a)
            } by {
            if a == c.address@ {
                assert(the_contract(cs2, a) == Some(c));
            } else {
                assert(the_contract(cs2, a) == the_contract(cs2.drop_last(), a));
                assert(the_contract(cs, a) == the_contract(cs.drop_last(), a));
            }
        }
    } else {
        let csd = cs.drop_last();
        assert(csd[i] == cs[i]);
        assert(forall|j: int| i < j < csd.len() ==> (#[trigger] csd[j]).address@ != c.address@);
        lemma_the_contract_update(csd, i, c);
        assert(cs2.last() == cs.last());
        assert(cs2.drop_last() =~= csd.update(i, c));
        assert forall|a: Seq<u8>|
            #[trigger] the_contract(cs2, a) == if a == c.address@ {
                Some(c)
            } else {
                the_contract(cs, a)
            } by {
            assert(the_contract(csd.update(i, c), a) == if a == c.address@ {
                Some(c)
            } else {
                the_contract(csd, a)
            });
            if cs.last().address@ == a {
                assert(cs[cs.len() - 1].address@ != c.address@);
                assert(the_contract(cs2, a) == Some(cs2.last()));
                assert(the_contract(cs, a) == Some(cs.last()));
            } else {
                assert(the_contract(cs2, a) == the_contract(cs2.drop_last(), a));
                assert(the_contract(cs, a) == the_contract(csd, a));
            }
        }
    }
}

/// A contract found under an address stands at that address.
pub proof fn lemma_the_contract_matches(cs: Seq<ContractModel>, addr: Seq<u8>)
    ensures
        the_contract(cs, addr) is Some ==> the_contract(cs, addr)->Some_0.address@ == addr,
    decreases cs.len(),
{
    if cs.len() > 0 && cs.last().address@ != addr {
        lemma_the_contract_matches(cs.drop_last(), addr);
    }
}

/// A record found under an asset id carries that id.
pub proof fn lemma_record_of_matches(assets: Seq<AssetRecord>, id: Seq<u8>)
    ensures
        record_of(assets, id) is Some ==> record_of(assets, id)->Some_0.asset_id@ == id,
    decreases assets.len(),
{
    if assets.len() > 0 && assets.last().asset_id@ != id {
        lemma_record_of_matches(assets.drop_last(), id);
    }
}

/// Whether the entry matches the key `(id_key(who), asset)`.
fn entry_matches(entry: &BalanceEntry, who: &IdentityRef, asset: &Fingerprint) -> (r: bool)
    ensures
        r == (id_key(entry.holder) == id_key(*who) && entry.asset@ == asset@),
{
    let kinds_match = match (&entry.holder, who) {
        (IdentityRef::AccountAddress(a), IdentityRef::AccountAddress(b)) => a.matches(b),
        (IdentityRef::ContractAddress(a), IdentityRef::ContractAddress(b)) => a.matches(b),
        _ => false,
    };
    kinds_match && entry.asset.matches(asset)
}

/// Looks up the current balance of `(who, asset)` among the entries.
pub(crate) fn entries_lookup(
    entries: &Vec<BalanceEntry>,
    who: &IdentityRef,
    asset: &Fingerprint,
) -> (r: u64)
    ensures
        r == entries_bal(entries@, id_key(*who), asset@),
{
    let ghost key = id_key(*who);
    let mut i: usize = entries.len();
    assert(entries@.take(i as int) =~= entries@);
    while i > 0
        invariant
            i <= entries@.len(),
            key == id_key(*who),
            entries_bal(entries@, key, asset@) == entries_bal(
                entries@.take(i as int),
                key,
                asset@,
            ),
        decreases i,
    {
        i = i - 1;
        let ghost prefix = entries@.take(i as int + 1);
        proof {
            assert(prefix.last() == entries@[i as int]);
            assert(prefix.drop_last() =~= entries@.take(i as int));
        }
        let hit = entry_matches(&entries[i], who, asset);
        if hit {
            proof {
                assert(id_key(entries@[i as int].holder) == key);
                assert(entries@[i as int].asset@ == asset@);
                assert(id_key(prefix.last().holder) == key);
                assert(prefix.last().asset@ == asset@);
                assert(entries_bal(prefix, key, asset@) == prefix.last().amount);
                assert(entries_bal(prefix, key, asset@) == entries@[i as int].amount);
            }
            return entries[i].amount;
        }
        proof {
            assert(entries_bal(prefix, key, asset@) == entries_bal(
                entries@.take(i as int),
                key,
                asset@,
            ));
        }
    }
    assert(entries@.take(0).len() == 0);
    0
}

/// Finds the index of the last contract entry for `addr`, with the lookup it
/// decides.
pub(crate) fn find_contract(cs: &Vec<ContractModel>, addr: &Fingerprint) -> (r: Option<usize>)
    ensures
        match r {
            Some(i) => {
                &&& i < cs@.len()
                &&& cs@[i as int].address@ == addr@
                &&& forall|j: int| i < j < cs@.len() ==> (#[trigger] cs@[j]).address@ != addr@
                &&& the_contract(cs@, addr@) == Some(cs@[i as int])
            },
            None => the_contract(cs@, addr@) is None,
        },
{
    let mut i: usize = cs.len();
    assert(cs@.take(i as int) =~= cs@);
    while i > 0
        invariant
            i <= cs@.len(),
            the_contract(cs@, addr@) == the_contract(cs@.take(i as int), addr@),
            forall|j: int| i <= j < cs@.len() ==> (#[trigger] cs@[j]).address@ != addr@,
        decreases i,
    {
        i = i - 1;
        let ghost prefix = cs@.take(i as int + 1);
        proof {
            assert(prefix.last() == cs@[i as int]);
            assert(prefix.drop_last() =~= cs@.take(i as int));
        }
        if cs[i].address.matches(addr) {
            proof {
                assert(the_contract(prefix, addr@) == Some(cs@[i as int]));
            }
            return Some(i);
        }
        proof {
            assert(the_contract(prefix, addr@) == the_contract(cs@.take(i as int), addr@));
        }
    }
    assert(cs@.take(0).len() == 0);
    None
}

/// Finds the index of the last asset record for `id`, with the lookup it
/// decides.
pub(crate) fn find_record(assets: &Vec<AssetRecord>, id: &Fingerprint) -> (r: Option<usize>)
    ensures
        match r {
            Some(i) => {
                &&& i < assets@.len()
                &&& assets@[i as int].asset_id@ == id@
                &&& record_of(assets@, id@) == Some(assets@[i as int])
            },
            None => record_of(assets@, id@) is None,
        },
{
    let mut i: usize = assets.len();
    assert(assets@.take(i as int) =~= assets@);
    while i > 0
        invariant
            i <= assets@.len(),
            record_of(assets@, id@) == record_of(assets@.take(i as int), id@),
        decreases i,
    {
        i = i - 1;
        let ghost prefix = assets@.take(i as int + 1);
        proof {
            assert(prefix.last() == assets@[i as int]);
            assert(prefix.drop_last() =~= assets@.take(i as int));
        }
        if assets[i].asset_id.matches(id) {
            proof {
                assert(record_of(prefix, id@) == Some(assets@[i as int]));
            }
            return Some(i);
        }
        proof {
            assert(record_of(prefix, id@) == record_of(assets@.take(i as int), id@));
        }
    }
    assert(assets@.take(0).len() == 0);
    None
}

/// Finds the index of the last asset record whose name is `name`, with the
/// lookup it decides.
pub(crate) fn find_record_by_name(assets: &Vec<AssetRecord>, name: &String) -> (r: Option<usize>)
    ensures
        match r {
            Some(i) => {
                &&& i < assets@.len()
                &&& record_by_name(assets@, name@) == Some(assets@[i as int])
            },
            None => record_by_name(assets@, name@) is None,
        },
{
    let mut i: usize = assets.len();
    assert(assets@.take(i as int) =~= assets@);
    while i > 0
        invariant
            i <= assets@.len(),
            record_by_name(assets@, name@) == record_by_name(assets@.take(i as int), name@),
        decreases i,
    {
        i = i - 1;
        let ghost prefix = assets@.take(i as int + 1);
        proof {
            assert(prefix.last() == assets@[i as int]);
            assert(prefix.drop_last() =~= assets@.take(i as int));
        }
        if assets[i].name.eq(name) {
            proof {
                assert(record_by_name(prefix, name@) == Some(assets@[i as int]));
            }
            return Some(i);
        }
        proof {
            assert(record_by_name(prefix, name@) == record_by_name(assets@.take(i as int), name@));
        }
    }
    assert(assets@.take(0).len() == 0);
    None
}

/// Whether some record carries the given (name, symbol) pair.
pub(crate) fn contains_pair(assets: &Vec<AssetRecord>, name: &String, symbol: &String) -> (r:
    bool)
    ensures
        r == has_pair(assets@, name@, symbol@),
{
    let mut i: usize = 0;
    while i < assets.len()
        invariant
            i <= assets@.len(),
            forall|j: int|
                0 <= j < i ==> !((#[trigger] assets@[j]).name@ == name@ && assets@[j].symbol@
                    == symbol@),
        decreases assets@.len() - i,
    {
        if assets[i].name.eq(name) && assets[i].symbol.eq(symbol) {
            proof {
                assert(assets@[i as int].name@ == name@ && assets@[i as int].symbol@ == symbol@);
            }
            return true;
        }
        i = i + 1;
    }
    false
}

impl Ledger {
    /// A fresh ledger with no contracts, no balances, the given base
    /// currency, and the given fee per transactional call.
    pub fn new(base_asset: Fingerprint, fee: u64) -> (r: Ledger)
        ensures
            r.contracts@.len() == 0,
            r.balances@.len() == 0,
            r.base_asset@ == base_asset@,
            r.fee == fee,
            r.rounds@ == 0,
            forall|w: (bool, Seq<u8>), a: Seq<u8>| #[trigger] bal(r, w, a) == 0,
    {
        Ledger {
            contracts: Vec::new(),
            balances: Vec::new(),
            base_asset,
            fee,
            rounds: Ghost(0nat),
        }
    }

    /// Credits `amount` of `asset` to `holder`: an external funding event,
    /// such as genesis coins or a transfer from outside this client's view.
    /// Fails only when the credit would overflow the holder's balance.
    pub fn fund(&mut self, holder: &IdentityRef, asset: &Fingerprint, amount: u64) -> (r: Result<
        (),
        Error,
    >)
        ensures
            r is Ok <==> bal(*old(self), id_key(*holder), asset@) + amount <= u64::MAX,
            r is Err ==> *final(self) == *old(self) && r->Err_0 == Error::Overflow,
            r is Ok ==> {
                &&& forall|w: (bool, Seq<u8>), a: Seq<u8>|
                    #[trigger] bal(*final(self), w, a) == if w == id_key(*holder) && a == asset@ {
                        (bal(*old(self), w, a) + amount) as u64
                    } else {
                        bal(*old(self), w, a)
                    }
                &&& final(self).contracts == old(self).contracts
                &&& final(self).base_asset == old(self).base_asset
                &&& final(self).fee == old(self).fee
                &&& final(self).rounds == old(self).rounds
            },
    {
        let cur = entries_lookup(&self.balances, holder, asset);
        if amount > u64::MAX - cur {
            return Err(Error::Overflow);
        }
        self.balances.push(
            BalanceEntry { holder: holder.dup(), asset: asset.dup(), amount: cur + amount },
        );
        proof {
            let entries = self.balances@;
            assert(entries.drop_last() =~= old(self).balances@);
            assert forall|w: (bool, Seq<u8>), a: Seq<u8>|
                #[trigger] bal(*self, w, a) == if w == id_key(*holder) && a == asset@ {
                    (bal(*old(self), w, a) + amount) as u64
                } else {
                    bal(*old(self), w, a)
                } by {
                assert(entries.last() == self.balances@[entries.len() - 1]);
            }
        }
        Ok(())
    }

    /// Queries the current balance of any identity: one read-only round
    /// trip that never mutates ledger state.
    pub fn query_balance(&mut self, holder: &IdentityRef, asset: &Fingerprint) -> (r: u64)
        ensures
            same_except_rounds(*old(self), *final(self)),
            final(self).rounds@ == old(self).rounds@ + 1,
            r == bal(*old(self), id_key(*holder), asset@),
    {
        self.note_round();
        entries_lookup(&self.balances, holder, asset)
    }

    /// Notes one network round trip.
    pub(crate) fn note_round(&mut self)
        ensures
            same_except_rounds(*old(self), *final(self)),
            final(self).rounds@ == old(self).rounds@ + 1,
    {
        let ghost r = self.rounds@;
        proof {
            self.rounds@ = r + 1;
        }
    }
}

} // verus!
