//! Contract client: an authenticated account handle, and a client bound to a
//! deployed multi-asset contract, with transactional operations (which mutate
//! ledger state, cost the caller one fee, and emit log events) and simulated
//! operations (read-only, free, and absent from the ledger's history).

use vstd::prelude::*;

use rand::Rng;

use crate::error::Error;
use crate::identity::{account_key, id_key, Fingerprint, IdentityRef};
use crate::ledger::{
    bal, contains_pair, entries_lookup, find_contract, find_record, find_record_by_name, has_pair,
    record_by_name, record_of, same_except_rounds, the_contract, AssetRecord, BalanceEntry,
    ContractModel, Ledger,
};

verus! {

/// An authenticated signer: it owns its credential, can query balances, and
/// can be rebound across any number of contract clients.
pub struct AccountHandle {
    address: Fingerprint,
}

impl View for AccountHandle {
    type V = Seq<u8>;

    closed spec fn view(&self) -> Seq<u8> {
        self.address@
    }
}

impl AccountHandle {
    /// Binds an account handle to its ledger address.
    pub fn new(address: Fingerprint) -> (r: AccountHandle)
        ensures
            r@ == address@,
    {
        AccountHandle { address }
    }

    /// The account's address. Deterministic, no side effects.
    pub fn address(&self) -> (r: &Fingerprint)
        ensures
            r@ == self@,
    {
        &self.address
    }

    /// A handle to the same account.
    pub fn dup(&self) -> (r: AccountHandle)
        ensures
            r@ == self@,
    {
        AccountHandle { address: self.address.dup() }
    }

    /// Queries the account's balance of `asset`: one read-only round trip
    /// that never mutates ledger state.
    pub fn balance_of(&self, ledger: &mut Ledger, asset: &Fingerprint) -> (r: u64)
        ensures
            same_except_rounds(*old(ledger), *final(ledger)),
            final(ledger).rounds@ == old(ledger).rounds@ + 1,
            r == bal(*old(ledger), account_key(self@), asset@),
    {
        ledger.note_round();
        let me = IdentityRef::AccountAddress(self.address.dup());
        entries_lookup(&ledger.balances, &me, asset)
    }
}

/// Relies on rand::thread_rng and rand::Rng::gen to draw 32 random bytes.
/// Nothing is assumed of the value drawn: every caller must hold for every
/// possible salt.
#[verifier::external_body]
fn random_salt() -> (r: [u8; 32]) {
    rand::thread_rng().gen()
}

/// The asset id the contract derives for its `m`-th registered asset: the
/// counter in little-endian bytes, zero-padded to the fingerprint width.
pub open spec fn spec_asset_id(m: int) -> Seq<u8> {
    vstd::bytes::spec_u64_to_le_bytes(m as u64) + Seq::new(24, |i: int| 0u8)
}

/// Derives the fingerprint of the `m`-th registered asset.
fn derive_asset_id(m: u64) -> (r: Fingerprint)
    ensures
        r@ == spec_asset_id(m as int),
        r@.len() == 32,
{
    let mut bytes = vstd::bytes::u64_to_le_bytes(m);
    let ghost head = bytes@;
    let mut i: usize = 0;
    while i < 24
        invariant
            i <= 24,
            bytes@.len() == 8 + i,
            bytes@.subrange(0, 8) == head,
            head == vstd::bytes::spec_u64_to_le_bytes(m),
            forall|j: int| 8 <= j < bytes@.len() ==> bytes@[j] == 0u8,
        decreases 24 - i,
    {
        bytes.push(0u8);
        assert(bytes@.subrange(0, 8) =~= head);
        i = i + 1;
    }
    assert(bytes@ =~= spec_asset_id(m as int));
    Fingerprint::from_bytes(bytes)
}

/// Derives the contract address a deployment with this salt produces. The
/// ledger mixes the salt into the address, so distinct salts can never
/// collide; the model keeps that property by making the derivation injective.
fn derive_contract_address(salt: &[u8; 32]) -> (r: Fingerprint)
    ensures
        r@ == salt@,
{
    let mut bytes: Vec<u8> = Vec::new();
    let mut i: usize = 0;
    while i < 32
        invariant
            i <= 32,
            bytes@ == salt@.subrange(0, i as int),
        decreases 32 - i,
    {
        bytes.push(salt[i]);
        assert(bytes@ =~= salt@.subrange(0, i + 1));
        i = i + 1;
    }
    assert(bytes@ =~= salt@);
    Fingerprint::from_bytes(bytes)
}

/// A log event emitted by a successful transactional call.
pub enum Event {
    AssetNew {
        asset: Fingerprint,
        name: String,
        symbol: String,
        decimals: u8,
        creator: IdentityRef,
    },
    AssetMinted { recipient: IdentityRef, asset: Fingerprint, amount: u64, minter: IdentityRef },
    OwnershipTransferred { new_owner: IdentityRef, previous_owner: IdentityRef },
}

/// The result of a transactional call: its returned value and the log events
/// it emitted, in emission order.
pub struct CallOutcome<T> {
    pub value: T,
    pub events: Vec<Event>,
}

/// Whether the contract's current owner is the account at `signer`.
pub open spec fn owner_is(c: ContractModel, signer: Seq<u8>) -> bool {
    match c.owner {
        Some(o) => id_key(o) == account_key(signer),
        None => false,
    }
}

/// Why an `asset_new` call by `signer` would be refused, if it would be.
pub open spec fn asset_new_denial(
    l: Ledger,
    caddr: Seq<u8>,
    signer: Seq<u8>,
    name: Seq<char>,
    symbol: Seq<char>,
) -> Option<Error> {
    match the_contract(l.contracts@, caddr) {
        None => Some(Error::ContractNotFound),
        Some(c) => if !owner_is(c, signer) {
            Some(Error::NotOwner)
        } else if name.len() == 0 || symbol.len() == 0 {
            Some(Error::ZeroStringLength)
        } else if has_pair(c.assets@, name, symbol) {
            Some(Error::AssetAlreadyExists)
        } else if c.asset_count == u64::MAX {
            Some(Error::Overflow)
        } else if bal(l, account_key(signer), l.base_asset@) < l.fee {
            Some(Error::InsufficientFunds)
        } else {
            None
        },
    }
}

/// Why a `mint` call by `signer` would be refused, if it would be. The
/// restricted-mint policy is enforced here: an asset registered with the
/// flag set can only be minted by the owner, one registered with the flag
/// clear by anyone; a mint of an unregistered asset stays owner-gated, so a
/// non-owner probing an unknown asset is told `NotOwner`, not
/// `AssetNotFound`.
pub open spec fn mint_denial(
    l: Ledger,
    caddr: Seq<u8>,
    signer: Seq<u8>,
    recip: (bool, Seq<u8>),
    asset: Seq<u8>,
    amount: u64,
) -> Option<Error> {
    match the_contract(l.contracts@, caddr) {
        None => Some(Error::ContractNotFound),
        Some(c) => if amount == 0 {
            Some(Error::ZeroValue)
        } else {
            match record_of(c.assets@, asset) {
                None => if !owner_is(c, signer) {
                    Some(Error::NotOwner)
                } else {
                    Some(Error::AssetNotFound)
                },
                Some(rec) => if rec.restricted && !owner_is(c, signer) {
                    Some(Error::NotOwner)
                } else if rec.supply + amount > u64::MAX {
                    Some(Error::Overflow)
                } else if bal(l, account_key(signer), l.base_asset@) < l.fee {
                    Some(Error::InsufficientFunds)
                } else if mint_recipient_start(l, signer, recip, asset) + amount > u64::MAX {
                    Some(Error::Overflow)
                } else {
                    None
                },
            }
        },
    }
}

/// The recipient's balance of `asset` once the signer's fee is taken, which
/// is the balance the minted amount lands on.
pub open spec fn mint_recipient_start(
    l: Ledger,
    signer: Seq<u8>,
    recip: (bool, Seq<u8>),
    asset: Seq<u8>,
) -> int {
    if recip == account_key(signer) && asset == l.base_asset@ {
        bal(l, account_key(signer), l.base_asset@) - l.fee
    } else {
        bal(l, recip, asset) as int
    }
}

/// Why a `transfer_ownership` call by `signer` would be refused.
pub open spec fn transfer_denial(l: Ledger, caddr: Seq<u8>, signer: Seq<u8>) -> Option<Error> {
    match the_contract(l.contracts@, caddr) {
        None => Some(Error::ContractNotFound),
        Some(c) => if !owner_is(c, signer) {
            Some(Error::NotOwner)
        } else if bal(l, account_key(signer), l.base_asset@) < l.fee {
            Some(Error::InsufficientFunds)
        } else {
            None
        },
    }
}

/// Why the one-time `initialize_ownership` call would be refused.
pub open spec fn initialize_denial(l: Ledger, caddr: Seq<u8>, signer: Seq<u8>) -> Option<Error> {
    match the_contract(l.contracts@, caddr) {
        None => Some(Error::ContractNotFound),
        Some(c) => if c.owner is Some {
            Some(Error::AlreadyInitialized)
        } else if bal(l, account_key(signer), l.base_asset@) < l.fee {
            Some(Error::InsufficientFunds)
        } else {
            None
        },
    }
}

/// Balances after a successful transactional call that only charged the
/// signer's fee.
pub open spec fn fee_charged(pre: Ledger, post: Ledger, signer: Seq<u8>) -> bool {
    forall|w: (bool, Seq<u8>), a: Seq<u8>|
        #[trigger] bal(post, w, a) == if w == account_key(signer) && a == pre.base_asset@ {
            (bal(pre, account_key(signer), pre.base_asset@) - pre.fee) as u64
        } else {
            bal(pre, w, a)
        }
}

/// Every contract other than `caddr` reads the same in both ledgers, and the
/// ledger's frame (base currency, fee, contract count) is unchanged.
pub open spec fn others_unchanged(pre: Ledger, post: Ledger, caddr: Seq<u8>) -> bool {
    &&& forall|a: Seq<u8>|
        a != caddr ==> #[trigger] the_contract(post.contracts@, a) == the_contract(
            pre.contracts@,
            a,
        )
    &&& post.contracts@.len() == pre.contracts@.len()
    &&& post.base_asset == pre.base_asset
    &&& post.fee == pre.fee
}

/// The state change of a successful `asset_new`.
pub open spec fn asset_new_post(
    pre: Ledger,
    post: Ledger,
    caddr: Seq<u8>,
    signer: Seq<u8>,
    name: Seq<char>,
    symbol: Seq<char>,
    decimals: u8,
    restricted: bool,
) -> bool {
    let c = the_contract(pre.contracts@, caddr)->Some_0;
    &&& fee_charged(pre, post, signer)
    &&& others_unchanged(pre, post, caddr)
    &&& match the_contract(post.contracts@, caddr) {
        Some(c2) => {
            &&& c2.address@ == caddr
            &&& c2.owner == c.owner
            &&& c2.asset_count == c.asset_count + 1
            &&& c2.assets@.len() == c.assets@.len() + 1
            &&& c2.assets@.subrange(0, c.assets@.len() as int) == c.assets@
            &&& ({
                let nr = c2.assets@.last();
                &&& nr.asset_id@ == spec_asset_id(c.asset_count + 1)
                &&& nr.name@ == name
                &&& nr.symbol@ == symbol
                &&& nr.decimals == decimals
                &&& nr.restricted == restricted
                &&& nr.supply == 0
            })
        },
        None => false,
    }
}

/// The state change of a successful `mint`.
pub open spec fn mint_post(
    pre: Ledger,
    post: Ledger,
    caddr: Seq<u8>,
    signer: Seq<u8>,
    recip: (bool, Seq<u8>),
    asset: Seq<u8>,
    amount: u64,
) -> bool {
    let c = the_contract(pre.contracts@, caddr)->Some_0;
    let rec = record_of(c.assets@, asset)->Some_0;
    let sbal = bal(pre, account_key(signer), pre.base_asset@);
    let rstart = mint_recipient_start(pre, signer, recip, asset);
    &&& forall|w: (bool, Seq<u8>), a: Seq<u8>|
        #[trigger] bal(post, w, a) == if w == recip && a == asset {
            (rstart + amount) as u64
        } else if w == account_key(signer) && a == pre.base_asset@ {
            (sbal - pre.fee) as u64
        } else {
            bal(pre, w, a)
        }
    &&& others_unchanged(pre, post, caddr)
    &&& match the_contract(post.contracts@, caddr) {
        Some(c2) => {
            &&& c2.address@ == caddr
            &&& c2.owner == c.owner
            &&& c2.asset_count == c.asset_count
            &&& c2.assets@.len() == c.assets@.len() + 1
            &&& c2.assets@.subrange(0, c.assets@.len() as int) == c.assets@
            &&& ({
                let nr = c2.assets@.last();
                &&& nr.asset_id@ == asset
                &&& nr.name@ == rec.name@
                &&& nr.symbol@ == rec.symbol@
                &&& nr.decimals == rec.decimals
                &&& nr.restricted == rec.restricted
                &&& nr.supply == rec.supply + amount
            })
        },
        None => false,
    }
}

/// The state change of a successful ownership change (transfer or one-time
/// initialization): the owner becomes `new_owner`, nothing else of the
/// contract moves.
pub open spec fn owner_set_post(
    pre: Ledger,
    post: Ledger,
    caddr: Seq<u8>,
    signer: Seq<u8>,
    new_owner: IdentityRef,
) -> bool {
    let c = the_contract(pre.contracts@, caddr)->Some_0;
    &&& fee_charged(pre, post, signer)
    &&& others_unchanged(pre, post, caddr)
    &&& match the_contract(post.contracts@, caddr) {
        Some(c2) => {
            &&& c2.address@ == caddr
            &&& c2.owner == Some(new_owner)
            &&& c2.asset_count == c.asset_count
            &&& c2.assets@ == c.assets@
        },
        None => false,
    }
}

/// The asset metadata a simulated query reads: the most recent record for
/// the asset id, if the contract exists.
pub open spec fn query_record(l: Ledger, caddr: Seq<u8>, asset: Seq<u8>) -> Result<
    Option<AssetRecord>,
    Error,
> {
    match the_contract(l.contracts@, caddr) {
        None => Err(Error::ContractNotFound),
        Some(c) => Ok(record_of(c.assets@, asset)),
    }
}

/// The record a simulated name lookup reads, if the contract exists.
pub open spec fn query_by_name(l: Ledger, caddr: Seq<u8>, name: Seq<char>) -> Result<
    Option<AssetRecord>,
    Error,
> {
    match the_contract(l.contracts@, caddr) {
        None => Err(Error::ContractNotFound),
        Some(c) => Ok(record_by_name(c.assets@, name)),
    }
}

/// A client bound to one deployed contract and one signing account. The
/// binding is immutable; rebinding the account produces a new client.
pub struct MultiAssetContract {
    contract_fp: Fingerprint,
    account: AccountHandle,
}

impl MultiAssetContract {
    /// The bound contract's address bytes.
    pub closed spec fn addr_key(&self) -> Seq<u8> {
        self.contract_fp@
    }

    /// The bound signer's address bytes.
    pub closed spec fn signer_key(&self) -> Seq<u8> {
        self.account@
    }

    /// Binds a client to an existing contract address. Pure: nothing is
    /// validated against the ledger.
    pub fn new(contract_id: Fingerprint, account: AccountHandle) -> (r: MultiAssetContract)
        ensures
            r.addr_key() == contract_id@,
            r.signer_key() == account@,
    {
        MultiAssetContract { contract_fp: contract_id, account }
    }

    /// A new client for the same contract, signing as `account`. The
    /// existing binding is left as it was.
    pub fn with_account(&self, account: &AccountHandle) -> (r: MultiAssetContract)
        ensures
            r.addr_key() == self.addr_key(),
            r.signer_key() == account@,
    {
        MultiAssetContract { contract_fp: self.contract_fp.dup(), account: account.dup() }
    }

    /// The bound contract's address. Deterministic, no side effects.
    pub fn id(&self) -> (r: Fingerprint)
        ensures
            r@ == self.addr_key(),
    {
        self.contract_fp.dup()
    }

    /// The bound contract's address, borrowed.
    pub fn contract_id(&self) -> (r: &Fingerprint)
        ensures
            r@ == self.addr_key(),
    {
        &self.contract_fp
    }

    /// Simulated query: how many assets the contract has registered.
    pub fn total_assets(&self, ledger: &mut Ledger) -> (r: Result<u64, Error>)
        ensures
            same_except_rounds(*old(ledger), *final(ledger)),
            final(ledger).rounds@ == old(ledger).rounds@ + 1,
            match the_contract(old(ledger).contracts@, self.addr_key()) {
                None => r is Err && r->Err_0 == Error::ContractNotFound,
                Some(c) => r is Ok && r->Ok_0 == c.asset_count,
            },
    {
        ledger.note_round();
        match find_contract(&ledger.contracts, &self.contract_fp) {
            Some(ci) => Ok(ledger.contracts[ci].asset_count),
            None => Err(Error::ContractNotFound),
        }
    }

    /// Simulated query: the total supply of `asset`, absent if the asset is
    /// not registered.
    pub fn total_supply(&self, ledger: &mut Ledger, asset: &Fingerprint) -> (r: Result<
        Option<u64>,
        Error,
    >)
        ensures
            same_except_rounds(*old(ledger), *final(ledger)),
            final(ledger).rounds@ == old(ledger).rounds@ + 1,
            match query_record(*old(ledger), self.addr_key(), asset@) {
                Err(e) => r is Err && r->Err_0 == e,
                Ok(None) => r is Ok && r->Ok_0 is None,
                Ok(Some(rec)) => r is Ok && r->Ok_0 == Some(rec.supply),
            },
    {
        ledger.note_round();
        let ci = match find_contract(&ledger.contracts, &self.contract_fp) {
            Some(i) => i,
            None => return Err(Error::ContractNotFound),
        };
        let c = &ledger.contracts[ci];
        match find_record(&c.assets, asset) {
            Some(ri) => Ok(Some(c.assets[ri].supply)),
            None => Ok(None),
        }
    }

    /// Simulated query: the name of `asset`, absent if it is not registered.
    pub fn name(&self, ledger: &mut Ledger, asset: &Fingerprint) -> (r: Result<
        Option<String>,
        Error,
    >)
        ensures
            same_except_rounds(*old(ledger), *final(ledger)),
            final(ledger).rounds@ == old(ledger).rounds@ + 1,
            match query_record(*old(ledger), self.addr_key(), asset@) {
                Err(e) => r is Err && r->Err_0 == e,
                Ok(None) => r is Ok && r->Ok_0 is None,
                Ok(Some(rec)) => r is Ok && r->Ok_0 is Some && r->Ok_0->Some_0@ == rec.name@,
            },
    {
        ledger.note_round();
        let ci = match find_contract(&ledger.contracts, &self.contract_fp) {
            Some(i) => i,
            None => return Err(Error::ContractNotFound),
        };
        let c = &ledger.contracts[ci];
        match find_record(&c.assets, asset) {
            Some(ri) => Ok(Some(c.assets[ri].name.clone())),
            None => Ok(None),
        }
    }

    /// Simulated query: the symbol of `asset`, absent if it is not
    /// registered.
    pub fn symbol(&self, ledger: &mut Ledger, asset: &Fingerprint) -> (r: Result<
        Option<String>,
        Error,
    >)
        ensures
            same_except_rounds(*old(ledger), *final(ledger)),
            final(ledger).rounds@ == old(ledger).rounds@ + 1,
            match query_record(*old(ledger), self.addr_key(), asset@) {
                Err(e) => r is Err && r->Err_0 == e,
                Ok(None) => r is Ok && r->Ok_0 is None,
                Ok(Some(rec)) => r is Ok && r->Ok_0 is Some && r->Ok_0->Some_0@ == rec.symbol@,
            },
    {
        ledger.note_round();
        let ci = match find_contract(&ledger.contracts, &self.contract_fp) {
            Some(i) => i,
            None => return Err(Error::ContractNotFound),
        };
        let c = &ledger.contracts[ci];
        match find_record(&c.assets, asset) {
            Some(ri) => Ok(Some(c.assets[ri].symbol.clone())),
            None => Ok(None),
        }
    }

    /// Simulated query: the decimals of `asset`, absent if it is not
    /// registered.
    pub fn decimals(&self, ledger: &mut Ledger, asset: &Fingerprint) -> (r: Result<
        Option<u8>,
        Error,
    >)
        ensures
            same_except_rounds(*old(ledger), *final(ledger)),
            final(ledger).rounds@ == old(ledger).rounds@ + 1,
            match query_record(*old(ledger), self.addr_key(), asset@) {
                Err(e) => r is Err && r->Err_0 == e,
                Ok(None) => r is Ok && r->Ok_0 is None,
                Ok(Some(rec)) => r is Ok && r->Ok_0 == Some(rec.decimals),
            },
    {
        ledger.note_round();
        let ci = match find_contract(&ledger.contracts, &self.contract_fp) {
            Some(i) => i,
            None => return Err(Error::ContractNotFound),
        };
        let c = &ledger.contracts[ci];
        match find_record(&c.assets, asset) {
            Some(ri) => Ok(Some(c.assets[ri].decimals)),
            None => Ok(None),
        }
    }

    /// Simulated query: whether minting of `asset` is restricted, absent if
    /// it is not registered.
    pub fn restricted_mint(&self, ledger: &mut Ledger, asset: &Fingerprint) -> (r: Result<
        Option<bool>,
        Error,
    >)
        ensures
            same_except_rounds(*old(ledger), *final(ledger)),
            final(ledger).rounds@ == old(ledger).rounds@ + 1,
            match query_record(*old(ledger), self.addr_key(), asset@) {
                Err(e) => r is Err && r->Err_0 == e,
                Ok(None) => r is Ok && r->Ok_0 is None,
                Ok(Some(rec)) => r is Ok && r->Ok_0 == Some(rec.restricted),
            },
    {
        ledger.note_round();
        let ci = match find_contract(&ledger.contracts, &self.contract_fp) {
            Some(i) => i,
            None => return Err(Error::ContractNotFound),
        };
        let c = &ledger.contracts[ci];
        match find_record(&c.assets, asset) {
            Some(ri) => Ok(Some(c.assets[ri].restricted)),
            None => Ok(None),
        }
    }

    /// Simulated query: the fingerprint registered under `name`, absent if
    /// no asset carries that name.
    pub fn asset(&self, ledger: &mut Ledger, name: &String) -> (r: Result<
        Option<Fingerprint>,
        Error,
    >)
        ensures
            same_except_rounds(*old(ledger), *final(ledger)),
            final(ledger).rounds@ == old(ledger).rounds@ + 1,
            match query_by_name(*old(ledger), self.addr_key(), name@) {
                Err(e) => r is Err && r->Err_0 == e,
                Ok(None) => r is Ok && r->Ok_0 is None,
                Ok(Some(rec)) => r is Ok && r->Ok_0 is Some && r->Ok_0->Some_0@ == rec.asset_id@,
            },
    {
        ledger.note_round();
        let ci = match find_contract(&ledger.contracts, &self.contract_fp) {
            Some(i) => i,
            None => return Err(Error::ContractNotFound),
        };
        let c = &ledger.contracts[ci];
        match find_record_by_name(&c.assets, name) {
            Some(ri) => Ok(Some(c.assets[ri].asset_id.dup())),
            None => Ok(None),
        }
    }

    /// Whether the bound signer is the current owner of the contract entry.
    fn signer_owns(&self, c: &ContractModel) -> (r: bool)
        ensures
            r == owner_is(*c, self.signer_key()),
    {
        match &c.owner {
            Some(o) => match o {
                IdentityRef::AccountAddress(fp) => fp.matches(&self.account.address()),
                IdentityRef::ContractAddress(_) => false,
            },
            None => false,
        }
    }

    /// Transactional: the one-time ownership initialization, with a recovery
    /// path for a contract left unowned by an interrupted deployment. Fails
    /// with `AlreadyInitialized` once an owner exists.
    pub fn initialize_ownership(&self, ledger: &mut Ledger, recipient: IdentityRef) -> (r: Result<
        CallOutcome<()>,
        Error,
    >)
        ensures
            final(ledger).rounds@ == old(ledger).rounds@ + 1,
            match initialize_denial(*old(ledger), self.addr_key(), self.signer_key()) {
                Some(e) => r is Err && r->Err_0 == e && same_except_rounds(
                    *old(ledger),
                    *final(ledger),
                ),
                None => {
                    &&& r is Ok
                    &&& owner_set_post(
                        *old(ledger),
                        *final(ledger),
                        self.addr_key(),
                        self.signer_key(),
                        recipient,
                    )
                    &&& r->Ok_0.events@.len() == 0
                },
            },
    {
        ledger.note_round();
        let ci = match find_contract(&ledger.contracts, &self.contract_fp) {
            Some(i) => i,
            None => return Err(Error::ContractNotFound),
        };
        if matches!(&ledger.contracts[ci].owner, Some(_)) {
            return Err(Error::AlreadyInitialized);
        }
        let me = IdentityRef::AccountAddress(self.account.address().dup());
        let sbal = entries_lookup(&ledger.balances, &me, &ledger.base_asset);
        if sbal < ledger.fee {
            return Err(Error::InsufficientFunds);
        }
        let fee = ledger.fee;
        let base = ledger.base_asset.dup();
        ledger.balances.push(BalanceEntry { holder: me, asset: base, amount: sbal - fee });
        let mut c = ledger.contracts.remove(ci);
        c.owner = Some(recipient);
        let ghost cval = c;
        ledger.contracts.insert(ci, c);
        proof {
            assert(ledger.balances@.drop_last() =~= old(ledger).balances@);
            assert(ledger.contracts@ =~= old(ledger).contracts@.update(ci as int, cval));
            crate::ledger::lemma_the_contract_update(old(ledger).contracts@, ci as int, cval);
            assert(the_contract(ledger.contracts@, self.addr_key()) == Some(cval));
        }
        Ok(CallOutcome { value: (), events: Vec::new() })
    }

    /// Transactional: hands ownership to `recipient`. Only the current owner
    /// may call it; afterwards every owner-gated call must be signed by the
    /// new owner.
    pub fn transfer_ownership(&self, ledger: &mut Ledger, recipient: IdentityRef) -> (r: Result<
        CallOutcome<()>,
        Error,
    >)
        ensures
            final(ledger).rounds@ == old(ledger).rounds@ + 1,
            match transfer_denial(*old(ledger), self.addr_key(), self.signer_key()) {
                Some(e) => r is Err && r->Err_0 == e && same_except_rounds(
                    *old(ledger),
                    *final(ledger),
                ),
                None => {
                    &&& r is Ok
                    &&& owner_set_post(
                        *old(ledger),
                        *final(ledger),
                        self.addr_key(),
                        self.signer_key(),
                        recipient,
                    )
                    &&& ({
                        let evs = r->Ok_0.events@;
                        let prev = the_contract(
                            old(ledger).contracts@,
                            self.addr_key(),
                        )->Some_0.owner->Some_0;
                        &&& evs.len() == 1
                        &&& (evs[0] matches Event::OwnershipTransferred { new_owner, previous_owner }
                            && id_key(new_owner) == id_key(recipient) && id_key(previous_owner)
                            == id_key(prev))
                    })
                },
            },
    {
        ledger.note_round();
        let ci = match find_contract(&ledger.contracts, &self.contract_fp) {
            Some(i) => i,
            None => return Err(Error::ContractNotFound),
        };
        if !self.signer_owns(&ledger.contracts[ci]) {
            return Err(Error::NotOwner);
        }
        let me = IdentityRef::AccountAddress(self.account.address().dup());
        let sbal = entries_lookup(&ledger.balances, &me, &ledger.base_asset);
        if sbal < ledger.fee {
            return Err(Error::InsufficientFunds);
        }
        let fee = ledger.fee;
        let base = ledger.base_asset.dup();
        ledger.balances.push(BalanceEntry { holder: me, asset: base, amount: sbal - fee });
        let mut c = ledger.contracts.remove(ci);
        let previous_owner = match &c.owner {
            Some(o) => o.dup(),
            None => IdentityRef::AccountAddress(Fingerprint::zeroed()),
        };
        let new_owner = recipient.dup();
        c.owner = Some(recipient);
        let ghost cval = c;
        ledger.contracts.insert(ci, c);
        proof {
            assert(ledger.balances@.drop_last() =~= old(ledger).balances@);
            assert(ledger.contracts@ =~= old(ledger).contracts@.update(ci as int, cval));
            crate::ledger::lemma_the_contract_update(old(ledger).contracts@, ci as int, cval);
            assert(the_contract(ledger.contracts@, self.addr_key()) == Some(cval));
        }
        let mut events: Vec<Event> = Vec::new();
        events.push(Event::OwnershipTransferred { new_owner, previous_owner });
        Ok(CallOutcome { value: (), events })
    }

    /// Transactional: registers a new asset under a fresh fingerprint and
    /// returns it. Owner-gated; refuses empty names or symbols and duplicate
    /// (name, symbol) pairs.
    pub fn asset_new(
        &self,
        ledger: &mut Ledger,
        name: &String,
        symbol: &String,
        decimals: u8,
        restricted_mint: bool,
    ) -> (r: Result<CallOutcome<Fingerprint>, Error>)
        ensures
            final(ledger).rounds@ == old(ledger).rounds@ + 1,
            match asset_new_denial(
                *old(ledger),
                self.addr_key(),
                self.signer_key(),
                name@,
                symbol@,
            ) {
                Some(e) => r is Err && r->Err_0 == e && same_except_rounds(
                    *old(ledger),
                    *final(ledger),
                ),
                None => {
                    &&& r is Ok
                    &&& asset_new_post(
                        *old(ledger),
                        *final(ledger),
                        self.addr_key(),
                        self.signer_key(),
                        name@,
                        symbol@,
                        decimals,
                        restricted_mint,
                    )
                    &&& ({
                        let c = the_contract(old(ledger).contracts@, self.addr_key())->Some_0;
                        let out = r->Ok_0;
                        &&& out.value@ == spec_asset_id(c.asset_count + 1)
                        &&& out.events@.len() == 1
                        &&& (out.events@[0] matches Event::AssetNew {
                            asset,
                            name: n,
                            symbol: s,
                            decimals: d,
                            creator,
                        } && asset@ == spec_asset_id(c.asset_count + 1) && n@ == name@ && s@
                            == symbol@ && d == decimals && id_key(creator) == account_key(
                            self.signer_key(),
                        ))
                    })
                },
            },
    {
        ledger.note_round();
        let ci = match find_contract(&ledger.contracts, &self.contract_fp) {
            Some(i) => i,
            None => return Err(Error::ContractNotFound),
        };
        if !self.signer_owns(&ledger.contracts[ci]) {
            return Err(Error::NotOwner);
        }
        if name.as_str().is_empty() || symbol.as_str().is_empty() {
            return Err(Error::ZeroStringLength);
        }
        if contains_pair(&ledger.contracts[ci].assets, name, symbol) {
            return Err(Error::AssetAlreadyExists);
        }
        let count = ledger.contracts[ci].asset_count;
        if count == u64::MAX {
            return Err(Error::Overflow);
        }
        let me = IdentityRef::AccountAddress(self.account.address().dup());
        let sbal = entries_lookup(&ledger.balances, &me, &ledger.base_asset);
        if sbal < ledger.fee {
            return Err(Error::InsufficientFunds);
        }
        let fee = ledger.fee;
        let base = ledger.base_asset.dup();
        ledger.balances.push(BalanceEntry { holder: me, asset: base, amount: sbal - fee });
        let asset_id = derive_asset_id(count + 1);
        let ghost old_c = old(ledger).contracts@[ci as int];
        let mut c = ledger.contracts.remove(ci);
        c.assets.push(
            AssetRecord {
                asset_id: asset_id.dup(),
                name: name.clone(),
                symbol: symbol.clone(),
                decimals,
                restricted: restricted_mint,
                supply: 0,
            },
        );
        c.asset_count = count + 1;
        let ghost cval = c;
        ledger.contracts.insert(ci, c);
        proof {
            assert(ledger.balances@.drop_last() =~= old(ledger).balances@);
            assert(ledger.contracts@ =~= old(ledger).contracts@.update(ci as int, cval));
            crate::ledger::lemma_the_contract_update(old(ledger).contracts@, ci as int, cval);
            assert(the_contract(ledger.contracts@, self.addr_key()) == Some(cval));
            assert(cval.assets@.subrange(0, old_c.assets@.len() as int) =~= old_c.assets@);
        }
        let creator = IdentityRef::AccountAddress(self.account.address().dup());
        let mut events: Vec<Event> = Vec::new();
        events.push(
            Event::AssetNew {
                asset: asset_id.dup(),
                name: name.clone(),
                symbol: symbol.clone(),
                decimals,
                creator,
            },
        );
        Ok(CallOutcome { value: asset_id, events })
    }

    /// Transactional: mints `amount` of `asset` to `recipient` and emits the
    /// mint event. Refuses zero amounts and unregistered assets; an asset
    /// registered with the restricted-mint flag set is mintable only by the
    /// owner, one with the flag clear by anyone; the same recipient minted
    /// twice accumulates both amounts.
    pub fn mint(
        &self,
        ledger: &mut Ledger,
        recipient: IdentityRef,
        asset: &Fingerprint,
        amount: u64,
    ) -> (r: Result<CallOutcome<()>, Error>)
        ensures
            final(ledger).rounds@ == old(ledger).rounds@ + 1,
            match mint_denial(
                *old(ledger),
                self.addr_key(),
                self.signer_key(),
                id_key(recipient),
                asset@,
                amount,
            ) {
                Some(e) => r is Err && r->Err_0 == e && same_except_rounds(
                    *old(ledger),
                    *final(ledger),
                ),
                None => {
                    &&& r is Ok
                    &&& mint_post(
                        *old(ledger),
                        *final(ledger),
                        self.addr_key(),
                        self.signer_key(),
                        id_key(recipient),
                        asset@,
                        amount,
                    )
                    &&& ({
                        let evs = r->Ok_0.events@;
                        &&& evs.len() == 1
                        &&& (evs[0] matches Event::AssetMinted {
                            recipient: rcp,
                            asset: a2,
                            amount: am,
                            minter,
                        } && id_key(rcp) == id_key(recipient) && a2@ == asset@ && am == amount
                            && id_key(minter) == account_key(self.signer_key()))
                    })
                },
            },
    {
        ledger.note_round();
        let ci = match find_contract(&ledger.contracts, &self.contract_fp) {
            Some(i) => i,
            None => return Err(Error::ContractNotFound),
        };
        if amount == 0 {
            return Err(Error::ZeroValue);
        }
        let is_owner = self.signer_owns(&ledger.contracts[ci]);
        let ri = match find_record(&ledger.contracts[ci].assets, asset) {
            Some(i) => i,
            None => {
                return Err(if !is_owner {
                    Error::NotOwner
                } else {
                    Error::AssetNotFound
                });
            },
        };
        if ledger.contracts[ci].assets[ri].restricted && !is_owner {
            return Err(Error::NotOwner);
        }
        let supply = ledger.contracts[ci].assets[ri].supply;
        if amount > u64::MAX - supply {
            return Err(Error::Overflow);
        }
        let me = IdentityRef::AccountAddress(self.account.address().dup());
        let sbal = entries_lookup(&ledger.balances, &me, &ledger.base_asset);
        if sbal < ledger.fee {
            return Err(Error::InsufficientFunds);
        }
        let fee = ledger.fee;
        let to_self_base = match &recipient {
            IdentityRef::AccountAddress(fp) => fp.matches(self.account.address())
                && asset.matches(&ledger.base_asset),
            IdentityRef::ContractAddress(_) => false,
        };
        let rstart = if to_self_base {
            sbal - fee
        } else {
            entries_lookup(&ledger.balances, &recipient, asset)
        };
        proof {
            assert(rstart == mint_recipient_start(
                *old(ledger),
                self.signer_key(),
                id_key(recipient),
                asset@,
            ));
        }
        if amount > u64::MAX - rstart {
            return Err(Error::Overflow);
        }
        ledger.balances.push(
            BalanceEntry {
                holder: me,
                asset: ledger.base_asset.dup(),
                amount: sbal - fee,
            },
        );
        let ghost mid_entries = ledger.balances@;
        ledger.balances.push(
            BalanceEntry { holder: recipient.dup(), asset: asset.dup(), amount: rstart + amount },
        );
        let ghost old_c = old(ledger).contracts@[ci as int];
        let mut c = ledger.contracts.remove(ci);
        let new_rec = AssetRecord {
            asset_id: c.assets[ri].asset_id.dup(),
            name: c.assets[ri].name.clone(),
            symbol: c.assets[ri].symbol.clone(),
            decimals: c.assets[ri].decimals,
            restricted: c.assets[ri].restricted,
            supply: supply + amount,
        };
        c.assets.push(new_rec);
        let ghost cval = c;
        ledger.contracts.insert(ci, c);
        proof {
            assert(mid_entries.drop_last() =~= old(ledger).balances@);
            assert(ledger.balances@.drop_last() =~= mid_entries);
            assert(ledger.contracts@ =~= old(ledger).contracts@.update(ci as int, cval));
            crate::ledger::lemma_the_contract_update(old(ledger).contracts@, ci as int, cval);
            assert(the_contract(ledger.contracts@, self.addr_key()) == Some(cval));
            assert(cval.assets@.subrange(0, old_c.assets@.len() as int) =~= old_c.assets@);
            let pre = *old(ledger);
            let recip = id_key(recipient);
            let signer = self.signer_key();
            assert forall|w: (bool, Seq<u8>), a: Seq<u8>|
                #[trigger] bal(*ledger, w, a) == if w == recip && a == asset@ {
                    (mint_recipient_start(pre, signer, recip, asset@) + amount) as u64
                } else if w == account_key(signer) && a == pre.base_asset@ {
                    (bal(pre, account_key(signer), pre.base_asset@) - pre.fee) as u64
                } else {
                    bal(pre, w, a)
                } by {
                let e2 = ledger.balances@.last();
                assert(id_key(e2.holder) == recip && e2.asset@ == asset@);
                if !(w == recip && a == asset@) {
                    assert(crate::ledger::entries_bal(ledger.balances@, w, a)
                        == crate::ledger::entries_bal(mid_entries, w, a));
                    let e1 = mid_entries.last();
                    assert(id_key(e1.holder) == account_key(signer) && e1.asset@
                        == pre.base_asset@);
                    if !(w == account_key(signer) && a == pre.base_asset@) {
                        assert(crate::ledger::entries_bal(mid_entries, w, a)
                            == crate::ledger::entries_bal(pre.balances@, w, a));
                    }
                }
            }
        }
        let minter = IdentityRef::AccountAddress(self.account.address().dup());
        let mut events: Vec<Event> = Vec::new();
        events.push(
            Event::AssetMinted { recipient, asset: asset.dup(), amount, minter },
        );
        Ok(CallOutcome { value: (), events })
    }
}

/// Why a code submission with this salt would be refused.
pub open spec fn submit_denial(l: Ledger, addr: Seq<u8>, signer: Seq<u8>) -> Option<Error> {
    if the_contract(l.contracts@, addr) is Some {
        Some(Error::AddressInUse)
    } else if bal(l, account_key(signer), l.base_asset@) < l.fee {
        Some(Error::InsufficientFunds)
    } else {
        None
    }
}

/// The state change of a successful code submission: a fresh, unowned,
/// empty contract at `addr`, and one fee charged.
pub open spec fn submit_post(pre: Ledger, post: Ledger, addr: Seq<u8>, signer: Seq<u8>) -> bool {
    &&& fee_charged(pre, post, signer)
    &&& forall|a: Seq<u8>|
        a != addr ==> #[trigger] the_contract(post.contracts@, a) == the_contract(
            pre.contracts@,
            a,
        )
    &&& post.contracts@.len() == pre.contracts@.len() + 1
    &&& match the_contract(post.contracts@, addr) {
        Some(c) => {
            &&& c.address@ == addr
            &&& c.owner is None
            &&& c.assets@.len() == 0
            &&& c.asset_count == 0
        },
        None => false,
    }
    &&& post.base_asset == pre.base_asset
    &&& post.fee == pre.fee
}

/// How a deployment can fail.
#[derive(Debug)]
pub enum DeployError {
    /// The deployment itself was rejected; the ledger is unchanged.
    Rejected(Error),
    /// The code was deployed but the ownership initialization then failed:
    /// the contract exists at `contract` and is unowned until a recovery
    /// call of `initialize_ownership` succeeds against that address.
    Ownerless { contract: Fingerprint, cause: Error },
}

impl MultiAssetContract {
    /// Submits the contract code with the given deployment salt: the first
    /// phase of a deployment. The derived address is fresh or the submission
    /// is refused; the new contract starts unowned.
    pub fn submit_code(ledger: &mut Ledger, account: &AccountHandle, salt: &[u8; 32]) -> (r:
        Result<Fingerprint, Error>)
        ensures
            final(ledger).rounds@ == old(ledger).rounds@ + 1,
            match submit_denial(*old(ledger), salt@, account@) {
                Some(e) => r is Err && r->Err_0 == e && same_except_rounds(
                    *old(ledger),
                    *final(ledger),
                ),
                None => {
                    &&& r is Ok
                    &&& r->Ok_0@ == salt@
                    &&& submit_post(*old(ledger), *final(ledger), salt@, account@)
                },
            },
    {
        ledger.note_round();
        let addr = derive_contract_address(salt);
        if find_contract(&ledger.contracts, &addr).is_some() {
            return Err(Error::AddressInUse);
        }
        let me = IdentityRef::AccountAddress(account.address().dup());
        let sbal = entries_lookup(&ledger.balances, &me, &ledger.base_asset);
        if sbal < ledger.fee {
            return Err(Error::InsufficientFunds);
        }
        let fee = ledger.fee;
        let base = ledger.base_asset.dup();
        ledger.balances.push(BalanceEntry { holder: me, asset: base, amount: sbal - fee });
        ledger.contracts.push(
            ContractModel {
                address: addr.dup(),
                owner: None,
                assets: Vec::new(),
                asset_count: 0,
            },
        );
        proof {
            assert(ledger.balances@.drop_last() =~= old(ledger).balances@);
            assert(ledger.contracts@.drop_last() =~= old(ledger).contracts@);
            assert(ledger.contracts@.last().address@ == salt@);
        }
        Ok(addr)
    }

    /// Bootstraps a new contract instance: draws a fresh random salt,
    /// submits the code, and immediately initializes ownership to the
    /// deploying account. The two phases are distinct: a deployment whose
    /// second phase fails leaves an unowned contract behind and reports it
    /// as `Ownerless`, with the address to retry `initialize_ownership`
    /// against.
    pub fn deploy(ledger: &mut Ledger, account: &AccountHandle) -> (r: Result<
        MultiAssetContract,
        DeployError,
    >)
        ensures
            match r {
                Ok(client) => {
                    &&& client.signer_key() == account@
                    &&& the_contract(old(ledger).contracts@, client.addr_key()) is None
                    &&& bal(*old(ledger), account_key(account@), old(ledger).base_asset@) >= 2
                        * old(ledger).fee
                    &&& match the_contract(final(ledger).contracts@, client.addr_key()) {
                        Some(c) => {
                            &&& c.address@ == client.addr_key()
                            &&& c.owner is Some
                            &&& id_key(c.owner->0) == account_key(account@)
                            &&& c.assets@.len() == 0
                            &&& c.asset_count == 0
                        },
                        None => false,
                    }
                    &&& forall|a: Seq<u8>|
                        a != client.addr_key() ==> #[trigger] the_contract(
                            final(ledger).contracts@,
                            a,
                        ) == the_contract(old(ledger).contracts@, a)
                    &&& final(ledger).contracts@.len() == old(ledger).contracts@.len() + 1
                    &&& forall|w: (bool, Seq<u8>), a: Seq<u8>|
                        #[trigger] bal(*final(ledger), w, a) == if w == account_key(account@) && a
                            == old(ledger).base_asset@ {
                            (bal(*old(ledger), w, a) - 2 * old(ledger).fee) as u64
                        } else {
                            bal(*old(ledger), w, a)
                        }
                    &&& final(ledger).base_asset == old(ledger).base_asset
                    &&& final(ledger).fee == old(ledger).fee
                    &&& final(ledger).rounds@ == old(ledger).rounds@ + 2
                },
                Err(DeployError::Rejected(e)) => {
                    &&& same_except_rounds(*old(ledger), *final(ledger))
                    &&& final(ledger).rounds@ == old(ledger).rounds@ + 1
                    &&& (e == Error::AddressInUse || e == Error::InsufficientFunds)
                    &&& e == Error::InsufficientFunds ==> bal(
                        *old(ledger),
                        account_key(account@),
                        old(ledger).base_asset@,
                    ) < old(ledger).fee
                },
                Err(DeployError::Ownerless { contract, cause }) => {
                    &&& cause == Error::InsufficientFunds
                    &&& the_contract(old(ledger).contracts@, contract@) is None
                    &&& submit_post(*old(ledger), *final(ledger), contract@, account@)
                    &&& final(ledger).rounds@ == old(ledger).rounds@ + 2
                },
            },
            r matches Err(DeployError::Rejected(e)) && e == Error::AddressInUse ==> old(
                ledger,
            ).contracts@.len() > 0,
            old(ledger).contracts@.len() == 0 && bal(
                *old(ledger),
                account_key(account@),
                old(ledger).base_asset@,
            ) >= 2 * old(ledger).fee ==> r is Ok,
    {
        let salt = random_salt();
        let addr = match MultiAssetContract::submit_code(ledger, account, &salt) {
            Ok(a) => a,
            Err(e) => {
                proof {
                    if old(ledger).contracts@.len() == 0 {
                        assert(the_contract(old(ledger).contracts@, salt@) is None);
                    }
                }
                return Err(DeployError::Rejected(e));
            },
        };
        let ghost mid = *ledger;
        let client = MultiAssetContract::new(addr.dup(), account.dup());
        let recipient = IdentityRef::AccountAddress(account.address().dup());
        match client.initialize_ownership(ledger, recipient) {
            Ok(_) => {
                proof {
                    let pre = *old(ledger);
                    let signer = account_key(account@);
                    let base = pre.base_asset@;
                    assert(initialize_denial(mid, client.addr_key(), account@) is None);
                    assert(bal(mid, signer, base) >= mid.fee);
                    assert(bal(mid, signer, base) == (bal(pre, signer, base) - pre.fee) as u64);
                    assert(bal(pre, signer, base) >= 2 * pre.fee);
                    assert forall|w: (bool, Seq<u8>), a: Seq<u8>|
                        #[trigger] bal(*ledger, w, a) == if w == signer && a == base {
                            (bal(pre, w, a) - 2 * pre.fee) as u64
                        } else {
                            bal(pre, w, a)
                        } by {
                        assert(bal(*ledger, w, a) == if w == signer && a == mid.base_asset@ {
                            (bal(mid, signer, mid.base_asset@) - mid.fee) as u64
                        } else {
                            bal(mid, w, a)
                        });
                        assert(bal(mid, w, a) == if w == signer && a == base {
                            (bal(pre, w, a) - pre.fee) as u64
                        } else {
                            bal(pre, w, a)
                        });
                    }
                }
                Ok(client)
            },
            Err(e) => {
                proof {
                    assert(ledger.balances == mid.balances);
                    assert(ledger.contracts == mid.contracts);
                    assert forall|w: (bool, Seq<u8>), a: Seq<u8>| #[trigger]
                        bal(*ledger, w, a) == bal(mid, w, a) by {}
                    assert forall|a: Seq<u8>| #[trigger]
                        the_contract(ledger.contracts@, a) == the_contract(mid.contracts@, a) by {}
                    assert(fee_charged(*old(ledger), *ledger, account@));
                    if old(ledger).contracts@.len() == 0 && bal(
                        *old(ledger),
                        account_key(account@),
                        old(ledger).base_asset@,
                    ) >= 2 * old(ledger).fee {
                        assert(bal(mid, account_key(account@), mid.base_asset@) >= mid.fee);
                        assert(false);
                    }
                }
                Err(DeployError::Ownerless { contract: addr, cause: e })
            },
        }
    }
}

} // verus!
