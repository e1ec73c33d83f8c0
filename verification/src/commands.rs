//! Command orchestration: each command validates its structured inputs
//! before any network round trip, snapshots the caller's base-currency
//! balance around the operation, dispatches through a bound contract client,
//! and reports the outcome together with the observed cost
//! (`balance before - balance after`, signed and never clamped).

use vstd::prelude::*;
use vstd::string::StrSliceExecFns;

use crate::bech32::{bech32_payload, bech32_to_fingerprint, valid_bech32_address};
use crate::client::{
    asset_new_denial, asset_new_post, mint_denial, mint_post, query_record, spec_asset_id,
    submit_post, AccountHandle, DeployError, MultiAssetContract,
};
use crate::error::Error;
use crate::identity::{
    account_key, fingerprint_of_text, id_key, parse_fingerprint, valid_fingerprint_text,
    Fingerprint, IdentityKind, IdentityRef,
};
use crate::ledger::{bal, record_of, same_except_rounds, the_contract, Ledger};

verus! {

/// Validates one textual fingerprint as every command does: the canonical
/// 66-character length first, then the hex form.
pub fn validate_fingerprint(s: &str) -> (r: Result<Fingerprint, Error>)
    ensures
        r is Ok <==> valid_fingerprint_text(s@),
        r is Ok ==> r->Ok_0@ == fingerprint_of_text(s@),
        s@.len() != 66 ==> r is Err && r->Err_0 == Error::InvalidInputFormat,
        s@.len() == 66 && !valid_fingerprint_text(s@) ==> r is Err && r->Err_0
            == Error::MalformedFingerprint,
{
    if s.unicode_len() != 66 {
        return Err(Error::InvalidInputFormat);
    }
    parse_fingerprint(s)
}

/// What `asset-new` reports on success.
pub struct AssetNewSummary {
    pub asset: Fingerprint,
    pub cost: i128,
    pub creator: Fingerprint,
}

/// What `deploy` reports on success.
pub struct DeploySummary {
    pub contract: Fingerprint,
    pub cost: i128,
    pub deployer: Fingerprint,
}

/// What `mint` reports on success: the recipient's observed balance delta
/// (only observed for account recipients; zero for contract recipients) and
/// the caller's cost.
pub struct MintSummary {
    pub minted: i128,
    pub cost: i128,
    pub minter: Fingerprint,
}

/// The `asset-new` command: creates one asset on a deployed contract.
pub struct AssetNewCommand {
    pub name: String,
    pub symbol: String,
    pub decimals: u8,
    pub restricted_mint: bool,
    pub contract_id: String,
}

impl AssetNewCommand {
    /// Validates the contract fingerprint, then creates the asset and
    /// accounts the cost. A malformed fingerprint fails locally: the ledger
    /// is left untouched and no round trip is issued.
    pub fn run(&self, ledger: &mut Ledger, account: &AccountHandle) -> (r: Result<
        AssetNewSummary,
        Error,
    >)
        ensures
            !valid_fingerprint_text(self.contract_id@) ==> {
                &&& r is Err
                &&& r->Err_0 == (if self.contract_id@.len() != 66 {
                    Error::InvalidInputFormat
                } else {
                    Error::MalformedFingerprint
                })
                &&& *final(ledger) == *old(ledger)
            },
            valid_fingerprint_text(self.contract_id@) ==> {
                let caddr = fingerprint_of_text(self.contract_id@);
                match asset_new_denial(*old(ledger), caddr, account@, self.name@, self.symbol@) {
                    Some(e) => {
                        &&& r is Err
                        &&& r->Err_0 == e
                        &&& same_except_rounds(*old(ledger), *final(ledger))
                        &&& final(ledger).rounds@ == old(ledger).rounds@ + 2
                    },
                    None => {
                        &&& r is Ok
                        &&& asset_new_post(
                            *old(ledger),
                            *final(ledger),
                            caddr,
                            account@,
                            self.name@,
                            self.symbol@,
                            self.decimals,
                            self.restricted_mint,
                        )
                        &&& final(ledger).rounds@ == old(ledger).rounds@ + 3
                        &&& ({
                            let c = the_contract(old(ledger).contracts@, caddr)->Some_0;
                            r->Ok_0.asset@ == spec_asset_id(c.asset_count + 1)
                        })
                        &&& r->Ok_0.cost == bal(
                            *old(ledger),
                            account_key(account@),
                            old(ledger).base_asset@,
                        ) - bal(*final(ledger), account_key(account@), old(ledger).base_asset@)
                        &&& r->Ok_0.creator@ == account@
                    },
                }
            },
    {
        let contract_fp = match validate_fingerprint(self.contract_id.as_str()) {
            Ok(f) => f,
            Err(e) => return Err(e),
        };
        let base = ledger.base_asset.dup();
        let before = account.balance_of(ledger, &base);
        let ghost mid = *ledger;
        let client = MultiAssetContract::new(contract_fp, account.dup());
        let outcome = match client.asset_new(
            ledger,
            &self.name,
            &self.symbol,
            self.decimals,
            self.restricted_mint,
        ) {
            Ok(o) => o,
            Err(e) => return Err(e),
        };
        let ghost pm = *ledger;
        let after = account.balance_of(ledger, &base);
        proof {
            assert(mid.balances == old(ledger).balances);
            assert(mid.contracts == old(ledger).contracts);
            assert(ledger.balances == pm.balances);
            assert(ledger.contracts == pm.contracts);
            assert forall|w: (bool, Seq<u8>), a: Seq<u8>| #[trigger]
                bal(*ledger, w, a) == bal(pm, w, a) by {}
            assert forall|w: (bool, Seq<u8>), a: Seq<u8>| #[trigger]
                bal(mid, w, a) == bal(*old(ledger), w, a) by {}
            assert forall|a: Seq<u8>| #[trigger]
                the_contract(ledger.contracts@, a) == the_contract(pm.contracts@, a) by {}
            assert forall|a: Seq<u8>| #[trigger]
                the_contract(mid.contracts@, a) == the_contract(old(ledger).contracts@, a) by {}
        }
        Ok(
            AssetNewSummary {
                asset: outcome.value,
                cost: before as i128 - after as i128,
                creator: account.address().dup(),
            },
        )
    }
}

/// The `deploy` command: bootstraps a fresh contract instance owned by the
/// deploying account.
pub struct DeployCommand {}

impl DeployCommand {
    /// Deploys with a fresh random salt and accounts the cost. On the
    /// partial-failure window (code deployed, ownership initialization
    /// failed) the `Ownerless` error carries the address to recover.
    pub fn run(&self, ledger: &mut Ledger, account: &AccountHandle) -> (r: Result<
        DeploySummary,
        DeployError,
    >)
        ensures
            match r {
                Ok(s) => {
                    &&& the_contract(old(ledger).contracts@, s.contract@) is None
                    &&& match the_contract(final(ledger).contracts@, s.contract@) {
                        Some(c) => {
                            &&& c.address@ == s.contract@
                            &&& c.owner is Some
                            &&& id_key(c.owner->0) == account_key(account@)
                            &&& c.assets@.len() == 0
                            &&& c.asset_count == 0
                        },
                        None => false,
                    }
                    &&& forall|a: Seq<u8>|
                        a != s.contract@ ==> #[trigger] the_contract(final(ledger).contracts@, a)
                            == the_contract(old(ledger).contracts@, a)
                    &&& final(ledger).contracts@.len() == old(ledger).contracts@.len() + 1
                    &&& forall|w: (bool, Seq<u8>), a: Seq<u8>|
                        #[trigger] bal(*final(ledger), w, a) == if w == account_key(account@) && a
                            == old(ledger).base_asset@ {
                            (bal(*old(ledger), w, a) - 2 * old(ledger).fee) as u64
                        } else {
                            bal(*old(ledger), w, a)
                        }
                    &&& s.cost == 2 * old(ledger).fee
                    &&& s.deployer@ == account@
                    &&& final(ledger).rounds@ == old(ledger).rounds@ + 4
                },
                Err(e) => match e {
                    DeployError::Rejected(cause) => {
                        &&& same_except_rounds(*old(ledger), *final(ledger))
                        &&& final(ledger).rounds@ == old(ledger).rounds@ + 2
                        &&& (cause == Error::AddressInUse || cause == Error::InsufficientFunds)
                        &&& cause == Error::InsufficientFunds ==> bal(
                            *old(ledger),
                            account_key(account@),
                            old(ledger).base_asset@,
                        ) < old(ledger).fee
                    },
                    DeployError::Ownerless { contract, cause } => {
                        &&& cause == Error::InsufficientFunds
                        &&& the_contract(old(ledger).contracts@, contract@) is None
                        &&& submit_post(*old(ledger), *final(ledger), contract@, account@)
                        &&& match the_contract(final(ledger).contracts@, contract@) {
                            Some(c) => c.owner is None,
                            None => false,
                        }
                        &&& final(ledger).rounds@ == old(ledger).rounds@ + 3
                    },
                },
            },
            r matches Err(DeployError::Rejected(e)) && e == Error::AddressInUse ==> old(
                ledger,
            ).contracts@.len() > 0,
            old(ledger).contracts@.len() == 0 && bal(
                *old(ledger),
                account_key(account@),
                old(ledger).base_asset@,
            ) >= 2 * old(ledger).fee ==> r is Ok,
    {
        let base = ledger.base_asset.dup();
        let before = account.balance_of(ledger, &base);
        let ghost mid = *ledger;
        let client = match MultiAssetContract::deploy(ledger, account) {
            Ok(c) => c,
            Err(e) => {
                proof {
                    assert(mid.balances == old(ledger).balances);
                    assert(mid.contracts == old(ledger).contracts);
                    assert forall|w: (bool, Seq<u8>), a: Seq<u8>| #[trigger]
                        bal(mid, w, a) == bal(*old(ledger), w, a) by {}
                    assert forall|a: Seq<u8>| #[trigger]
                        the_contract(mid.contracts@, a) == the_contract(old(ledger).contracts@, a)
                        by {}
                }
                return Err(e);
            },
        };
        let ghost pm = *ledger;
        let after = account.balance_of(ledger, &base);
        proof {
            assert(mid.balances == old(ledger).balances);
            assert(mid.contracts == old(ledger).contracts);
            assert(ledger.balances == pm.balances);
            assert(ledger.contracts == pm.contracts);
            assert forall|w: (bool, Seq<u8>), a: Seq<u8>| #[trigger]
                bal(*ledger, w, a) == bal(pm, w, a) by {}
            assert forall|w: (bool, Seq<u8>), a: Seq<u8>| #[trigger]
                bal(mid, w, a) == bal(*old(ledger), w, a) by {}
            assert forall|a: Seq<u8>| #[trigger]
                the_contract(ledger.contracts@, a) == the_contract(pm.contracts@, a) by {}
            assert forall|a: Seq<u8>| #[trigger]
                the_contract(mid.contracts@, a) == the_contract(old(ledger).contracts@, a) by {}
            assert(before >= 2 * mid.fee);
        }
        Ok(
            DeploySummary {
                contract: client.id(),
                cost: before as i128 - after as i128,
                deployer: account.address().dup(),
            },
        )
    }
}

/// The `mint` command: mints an amount of one asset to one recipient.
pub struct MintCommand {
    pub recipient_id: String,
    pub recipient_type: IdentityKind,
    pub asset: String,
    pub amount: u64,
    pub contract_id: String,
}

/// The identity key a command derives from a textual recipient and its kind.
pub open spec fn recipient_key(kind: IdentityKind, s: Seq<char>) -> (bool, Seq<u8>) {
    (kind == IdentityKind::Contract, fingerprint_of_text(s))
}

impl MintCommand {
    /// Validates every fingerprint before any round trip, resolves the
    /// recipient kind, mints, and accounts the cost. For account recipients
    /// the recipient's balance delta is observed around the call; for
    /// contract recipients it is not observed and reported as zero.
    pub fn run(&self, ledger: &mut Ledger, account: &AccountHandle) -> (r: Result<
        MintSummary,
        Error,
    >)
        ensures
            !valid_fingerprint_text(self.contract_id@) ==> {
                &&& r is Err
                &&& r->Err_0 == (if self.contract_id@.len() != 66 {
                    Error::InvalidInputFormat
                } else {
                    Error::MalformedFingerprint
                })
                &&& *final(ledger) == *old(ledger)
            },
            valid_fingerprint_text(self.contract_id@) && !valid_fingerprint_text(self.asset@)
                ==> {
                &&& r is Err
                &&& r->Err_0 == (if self.asset@.len() != 66 {
                    Error::InvalidInputFormat
                } else {
                    Error::MalformedFingerprint
                })
                &&& *final(ledger) == *old(ledger)
            },
            valid_fingerprint_text(self.contract_id@) && valid_fingerprint_text(self.asset@)
                && !valid_fingerprint_text(self.recipient_id@) ==> {
                &&& r is Err
                &&& r->Err_0 == (if self.recipient_id@.len() != 66 {
                    Error::InvalidInputFormat
                } else {
                    Error::MalformedFingerprint
                })
                &&& *final(ledger) == *old(ledger)
            },
            valid_fingerprint_text(self.contract_id@) && valid_fingerprint_text(self.asset@)
                && valid_fingerprint_text(self.recipient_id@) ==> {
                let caddr = fingerprint_of_text(self.contract_id@);
                let aid = fingerprint_of_text(self.asset@);
                let rkey = recipient_key(self.recipient_type, self.recipient_id@);
                let observes = self.recipient_type == IdentityKind::Address;
                match mint_denial(*old(ledger), caddr, account@, rkey, aid, self.amount) {
                    Some(e) => {
                        &&& r is Err
                        &&& r->Err_0 == e
                        &&& same_except_rounds(*old(ledger), *final(ledger))
                        &&& final(ledger).rounds@ == old(ledger).rounds@ + (if observes {
                            3int
                        } else {
                            2int
                        })
                    },
                    None => {
                        &&& r is Ok
                        &&& mint_post(
                            *old(ledger),
                            *final(ledger),
                            caddr,
                            account@,
                            rkey,
                            aid,
                            self.amount,
                        )
                        &&& final(ledger).rounds@ == old(ledger).rounds@ + (if observes {
                            5int
                        } else {
                            3int
                        })
                        &&& r->Ok_0.minted == (if observes {
                            bal(*final(ledger), rkey, aid) - bal(*old(ledger), rkey, aid)
                        } else {
                            0int
                        })
                        &&& r->Ok_0.cost == bal(
                            *old(ledger),
                            account_key(account@),
                            old(ledger).base_asset@,
                        ) - bal(*final(ledger), account_key(account@), old(ledger).base_asset@)
                        &&& r->Ok_0.minter@ == account@
                    },
                }
            },
    {
        let contract_fp = match validate_fingerprint(self.contract_id.as_str()) {
            Ok(f) => f,
            Err(e) => return Err(e),
        };
        let asset_fp = match validate_fingerprint(self.asset.as_str()) {
            Ok(f) => f,
            Err(e) => return Err(e),
        };
        let recipient_fp = match validate_fingerprint(self.recipient_id.as_str()) {
            Ok(f) => f,
            Err(e) => return Err(e),
        };
        let base = ledger.base_asset.dup();
        let before = account.balance_of(ledger, &base);
        let client = MultiAssetContract::new(contract_fp, account.dup());
        let recipient = IdentityRef::from_kind(self.recipient_type, recipient_fp);
        match self.recipient_type {
            IdentityKind::Address => {
                let rb0 = ledger.query_balance(&recipient, &asset_fp);
                let ghost mid = *ledger;
                match client.mint(ledger, recipient.dup(), &asset_fp, self.amount) {
                    Ok(_) => {},
                    Err(e) => {
                        proof {
                            assert(mid.balances == old(ledger).balances);
                            assert(mid.contracts == old(ledger).contracts);
                        }
                        return Err(e);
                    },
                };
                let ghost pm = *ledger;
                let rb1 = ledger.query_balance(&recipient, &asset_fp);
                let after = account.balance_of(ledger, &base);
                proof {
                    assert(mid.balances == old(ledger).balances);
                    assert(mid.contracts == old(ledger).contracts);
                    assert(ledger.balances == pm.balances);
                    assert(ledger.contracts == pm.contracts);
                    assert forall|w: (bool, Seq<u8>), a: Seq<u8>| #[trigger]
                        bal(*ledger, w, a) == bal(pm, w, a) by {}
                    assert forall|w: (bool, Seq<u8>), a: Seq<u8>| #[trigger]
                        bal(mid, w, a) == bal(*old(ledger), w, a) by {}
                    assert forall|a: Seq<u8>| #[trigger]
                        the_contract(ledger.contracts@, a) == the_contract(pm.contracts@, a) by {}
                    assert forall|a: Seq<u8>| #[trigger]
                        the_contract(mid.contracts@, a) == the_contract(old(ledger).contracts@, a)
                        by {}
                }
                Ok(
                    MintSummary {
                        minted: rb1 as i128 - rb0 as i128,
                        cost: before as i128 - after as i128,
                        minter: account.address().dup(),
                    },
                )
            },
            IdentityKind::Contract => {
                let ghost mid = *ledger;
                match client.mint(ledger, recipient, &asset_fp, self.amount) {
                    Ok(_) => {},
                    Err(e) => {
                        proof {
                            assert(mid.balances == old(ledger).balances);
                            assert(mid.contracts == old(ledger).contracts);
                        }
                        return Err(e);
                    },
                };
                let ghost pm = *ledger;
                let after = account.balance_of(ledger, &base);
                proof {
                    assert(mid.balances == old(ledger).balances);
                    assert(mid.contracts == old(ledger).contracts);
                    assert(ledger.balances == pm.balances);
                    assert(ledger.contracts == pm.contracts);
                    assert forall|w: (bool, Seq<u8>), a: Seq<u8>| #[trigger]
                        bal(*ledger, w, a) == bal(pm, w, a) by {}
                    assert forall|w: (bool, Seq<u8>), a: Seq<u8>| #[trigger]
                        bal(mid, w, a) == bal(*old(ledger), w, a) by {}
                    assert forall|a: Seq<u8>| #[trigger]
                        the_contract(ledger.contracts@, a) == the_contract(pm.contracts@, a) by {}
                    assert forall|a: Seq<u8>| #[trigger]
                        the_contract(mid.contracts@, a) == the_contract(old(ledger).contracts@, a)
                        by {}
                }
                Ok(
                    MintSummary {
                        minted: 0,
                        cost: before as i128 - after as i128,
                        minter: account.address().dup(),
                    },
                )
            },
        }
    }
}

/// What `mint-many` reports on success: how many recipients were credited
/// and the aggregate cost across the whole batch.
pub struct MintManySummary {
    pub completed: usize,
    pub cost: i128,
    pub minter: Fingerprint,
}

/// How a batch mint fails: the count of recipients already credited when the
/// first failure hit, and that failure. Earlier mints stay committed.
#[derive(Debug)]
pub struct MintManyFailure {
    pub completed: usize,
    pub error: Error,
}

/// The `mint-many` command: mints the same amount of one asset to each of an
/// ordered sequence of recipients, one transactional call per recipient.
pub struct MintManyCommand {
    pub recipient_id: Vec<String>,
    pub recipient_type: IdentityKind,
    pub asset: String,
    pub amount: u64,
    pub contract_id: String,
}

/// How many of the first `upto` textual recipients resolve to identity key
/// `w`.
pub open spec fn credited_count(
    recips: Seq<String>,
    kind: IdentityKind,
    w: (bool, Seq<u8>),
    upto: int,
) -> int
    decreases upto,
{
    if upto <= 0 {
        0int
    } else {
        credited_count(recips, kind, w, upto - 1) + if recipient_key(kind, recips[upto - 1]@)
            == w {
            1int
        } else {
            0int
        }
    }
}

/// The balance of `(w, a)` after the first `done` recipients of a batch mint
/// have been credited and the signer charged `done` fees.
pub open spec fn batch_bal(
    pre: Ledger,
    signer: Seq<u8>,
    kind: IdentityKind,
    recips: Seq<String>,
    aid: Seq<u8>,
    amount: u64,
    done: int,
    w: (bool, Seq<u8>),
    a: Seq<u8>,
) -> int {
    bal(pre, w, a) + (if a == aid {
        amount * credited_count(recips, kind, w, done)
    } else {
        0int
    }) - (if w == account_key(signer) && a == pre.base_asset@ {
        pre.fee * done
    } else {
        0int
    })
}

/// The ledger after `done` successful batch-mint iterations, relative to the
/// state the batch started from.
pub open spec fn batch_state(
    pre: Ledger,
    cur: Ledger,
    signer: Seq<u8>,
    kind: IdentityKind,
    recips: Seq<String>,
    caddr: Seq<u8>,
    aid: Seq<u8>,
    amount: u64,
    done: int,
) -> bool {
    &&& forall|w: (bool, Seq<u8>), a: Seq<u8>|
        #[trigger] bal(cur, w, a) == batch_bal(pre, signer, kind, recips, aid, amount, done, w, a)
    &&& forall|a: Seq<u8>|
        a != caddr ==> #[trigger] the_contract(cur.contracts@, a) == the_contract(
            pre.contracts@,
            a,
        )
    &&& cur.contracts@.len() == pre.contracts@.len()
    &&& cur.base_asset == pre.base_asset
    &&& cur.fee == pre.fee
    &&& match the_contract(pre.contracts@, caddr) {
        None => the_contract(cur.contracts@, caddr) is None,
        Some(c0) => match the_contract(cur.contracts@, caddr) {
            None => false,
            Some(ck) => {
                &&& ck.address@ == caddr
                &&& ck.owner == c0.owner
                &&& ck.asset_count == c0.asset_count
                &&& match record_of(c0.assets@, aid) {
                    None => record_of(ck.assets@, aid) is None,
                    Some(rec0) => match record_of(ck.assets@, aid) {
                        None => false,
                        Some(rk) => {
                            &&& rk.asset_id@ == aid
                            &&& rk.name@ == rec0.name@
                            &&& rk.symbol@ == rec0.symbol@
                            &&& rk.decimals == rec0.decimals
                            &&& rk.restricted == rec0.restricted
                            &&& rk.supply == rec0.supply + amount * done
                        },
                    },
                }
            },
        },
    }
}

/// Why the `done`-th iteration of a batch mint would be refused, computed
/// from the starting state alone: every condition a mint checks is either
/// static across the batch or a function of the batch balance formula.
pub open spec fn batch_denial(
    pre: Ledger,
    signer: Seq<u8>,
    kind: IdentityKind,
    recips: Seq<String>,
    caddr: Seq<u8>,
    aid: Seq<u8>,
    amount: u64,
    j: int,
) -> Option<Error> {
    let rk = recipient_key(kind, recips[j]@);
    match the_contract(pre.contracts@, caddr) {
        None => Some(Error::ContractNotFound),
        Some(c0) => if amount == 0 {
            Some(Error::ZeroValue)
        } else {
            match record_of(c0.assets@, aid) {
                None => if !crate::client::owner_is(c0, signer) {
                    Some(Error::NotOwner)
                } else {
                    Some(Error::AssetNotFound)
                },
                Some(rec0) => if rec0.restricted && !crate::client::owner_is(c0, signer) {
                    Some(Error::NotOwner)
                } else {
                    let sb = batch_bal(
                        pre,
                        signer,
                        kind,
                        recips,
                        aid,
                        amount,
                        j,
                        account_key(signer),
                        pre.base_asset@,
                    );
                    if rec0.supply + amount * j + amount > u64::MAX {
                        Some(Error::Overflow)
                    } else if sb < pre.fee {
                        Some(Error::InsufficientFunds)
                    } else {
                        let rstart = if rk == account_key(signer) && aid == pre.base_asset@ {
                            sb - pre.fee
                        } else {
                            batch_bal(pre, signer, kind, recips, aid, amount, j, rk, aid)
                        };
                        if rstart + amount > u64::MAX {
                            Some(Error::Overflow)
                        } else {
                            None
                        }
                    }
                },
            }
        },
    }
}

/// One batch-mint step checks exactly what `batch_denial` computes from the
/// starting state.
proof fn lemma_batch_step_denial(
    pre: Ledger,
    cur: Ledger,
    signer: Seq<u8>,
    kind: IdentityKind,
    recips: Seq<String>,
    caddr: Seq<u8>,
    aid: Seq<u8>,
    amount: u64,
    j: int,
)
    requires
        0 <= j < recips.len(),
        batch_state(pre, cur, signer, kind, recips, caddr, aid, amount, j),
    ensures
        mint_denial(cur, caddr, signer, recipient_key(kind, recips[j]@), aid, amount)
            == batch_denial(pre, signer, kind, recips, caddr, aid, amount, j),
{
    let rk = recipient_key(kind, recips[j]@);
    match the_contract(pre.contracts@, caddr) {
        None => {
            assert(the_contract(cur.contracts@, caddr) is None);
        },
        Some(c0) => {
            let ck = the_contract(cur.contracts@, caddr)->Some_0;
            assert(crate::client::owner_is(ck, signer) == crate::client::owner_is(c0, signer));
            if amount != 0 {
                match record_of(c0.assets@, aid) {
                    None => {
                        assert(record_of(ck.assets@, aid) is None);
                    },
                    Some(rec0) => {
                        let rk_rec = record_of(ck.assets@, aid)->Some_0;
                        assert(rk_rec.restricted == rec0.restricted);
                        assert(rk_rec.supply == rec0.supply + amount * j);
                        assert(bal(cur, account_key(signer), cur.base_asset@) == batch_bal(
                            pre,
                            signer,
                            kind,
                            recips,
                            aid,
                            amount,
                            j,
                            account_key(signer),
                            pre.base_asset@,
                        ));
                        assert(bal(cur, rk, aid) == batch_bal(
                            pre,
                            signer,
                            kind,
                            recips,
                            aid,
                            amount,
                            j,
                            rk,
                            aid,
                        ));
                    },
                }
            }
        },
    }
}

impl MintManyCommand {
    /// Mints to each recipient in input order, one transactional call per
    /// recipient, validating each recipient fingerprint only when its turn
    /// comes. The batch is not atomic: on the first failure it stops at
    /// once, keeps every earlier mint committed, and reports how many
    /// recipients were credited. Cost is accounted only in aggregate.
    pub fn run(&self, ledger: &mut Ledger, account: &AccountHandle) -> (r: Result<
        MintManySummary,
        MintManyFailure,
    >)
        ensures
            !valid_fingerprint_text(self.contract_id@) ==> {
                &&& r is Err
                &&& r->Err_0.completed == 0
                &&& r->Err_0.error == (if self.contract_id@.len() != 66 {
                    Error::InvalidInputFormat
                } else {
                    Error::MalformedFingerprint
                })
                &&& *final(ledger) == *old(ledger)
            },
            valid_fingerprint_text(self.contract_id@) && !valid_fingerprint_text(self.asset@)
                ==> {
                &&& r is Err
                &&& r->Err_0.completed == 0
                &&& r->Err_0.error == (if self.asset@.len() != 66 {
                    Error::InvalidInputFormat
                } else {
                    Error::MalformedFingerprint
                })
                &&& *final(ledger) == *old(ledger)
            },
            valid_fingerprint_text(self.contract_id@) && valid_fingerprint_text(self.asset@)
                ==> {
                let caddr = fingerprint_of_text(self.contract_id@);
                let aid = fingerprint_of_text(self.asset@);
                let kind = self.recipient_type;
                let recips = self.recipient_id@;
                let signer = account@;
                match r {
                    Ok(s) => {
                        &&& s.completed == recips.len()
                        &&& forall|i: int|
                            0 <= i < recips.len() ==> valid_fingerprint_text(
                                (#[trigger] recips[i])@,
                            )
                        &&& forall|i: int|
                            0 <= i < recips.len() ==> #[trigger] batch_denial(
                                *old(ledger),
                                signer,
                                kind,
                                recips,
                                caddr,
                                aid,
                                self.amount,
                                i,
                            ) is None
                        &&& batch_state(
                            *old(ledger),
                            *final(ledger),
                            signer,
                            kind,
                            recips,
                            caddr,
                            aid,
                            self.amount,
                            recips.len() as int,
                        )
                        &&& s.cost == bal(
                            *old(ledger),
                            account_key(signer),
                            old(ledger).base_asset@,
                        ) - bal(*final(ledger), account_key(signer), old(ledger).base_asset@)
                        &&& s.minter@ == account@
                        &&& final(ledger).rounds@ == old(ledger).rounds@ + 2 + recips.len()
                    },
                    Err(f) => {
                        let j = f.completed as int;
                        &&& f.completed < recips.len()
                        &&& forall|i: int|
                            0 <= i < j ==> valid_fingerprint_text((#[trigger] recips[i])@)
                        &&& forall|i: int|
                            0 <= i < j ==> #[trigger] batch_denial(
                                *old(ledger),
                                signer,
                                kind,
                                recips,
                                caddr,
                                aid,
                                self.amount,
                                i,
                            ) is None
                        &&& batch_state(
                            *old(ledger),
                            *final(ledger),
                            signer,
                            kind,
                            recips,
                            caddr,
                            aid,
                            self.amount,
                            j,
                        )
                        &&& (if !valid_fingerprint_text(recips[j]@) {
                            f.error == (if recips[j]@.len() != 66 {
                                Error::InvalidInputFormat
                            } else {
                                Error::MalformedFingerprint
                            })
                        } else {
                            batch_denial(
                                *old(ledger),
                                signer,
                                kind,
                                recips,
                                caddr,
                                aid,
                                self.amount,
                                j,
                            ) == Some(f.error)
                        })
                        &&& final(ledger).rounds@ == old(ledger).rounds@ + 1 + j + (
                        if valid_fingerprint_text(recips[j]@) {
                            1int
                        } else {
                            0int
                        })
                    },
                }
            },
    {
        let contract_fp = match validate_fingerprint(self.contract_id.as_str()) {
            Ok(f) => f,
            Err(e) => return Err(MintManyFailure { completed: 0, error: e }),
        };
        let asset_fp = match validate_fingerprint(self.asset.as_str()) {
            Ok(f) => f,
            Err(e) => return Err(MintManyFailure { completed: 0, error: e }),
        };
        let ghost pre = *old(ledger);
        let ghost caddr = fingerprint_of_text(self.contract_id@);
        let ghost aid = fingerprint_of_text(self.asset@);
        let ghost signer = account@;
        let ghost kind = self.recipient_type;
        let ghost recips = self.recipient_id@;
        let base = ledger.base_asset.dup();
        let before = account.balance_of(ledger, &base);
        let client = MultiAssetContract::new(contract_fp, account.dup());
        proof {
            assert(ledger.balances == pre.balances);
            assert(ledger.contracts == pre.contracts);
            assert forall|w: (bool, Seq<u8>), a: Seq<u8>| #[trigger]
                bal(*ledger, w, a) == batch_bal(
                    pre,
                    signer,
                    kind,
                    recips,
                    aid,
                    self.amount,
                    0,
                    w,
                    a,
                ) by {}
            assert forall|a: Seq<u8>| #[trigger]
                the_contract(ledger.contracts@, a) == the_contract(pre.contracts@, a) by {}
            crate::ledger::lemma_the_contract_matches(pre.contracts@, caddr);
            if the_contract(pre.contracts@, caddr) is Some {
                let c0 = the_contract(pre.contracts@, caddr)->Some_0;
                assert(the_contract(ledger.contracts@, caddr) == Some(c0));
                crate::ledger::lemma_record_of_matches(c0.assets@, aid);
                if record_of(c0.assets@, aid) is Some {
                    let rec0 = record_of(c0.assets@, aid)->Some_0;
                    assert(rec0.supply + self.amount * 0 == rec0.supply);
                }
            } else {
                assert(the_contract(ledger.contracts@, caddr) is None);
            }
            assert(batch_state(pre, *ledger, signer, kind, recips, caddr, aid, self.amount, 0));
        }
        let n = self.recipient_id.len();
        let mut k: usize = 0;
        while k < n
            invariant
                k <= n,
                n == recips.len(),
                pre == *old(ledger),
                valid_fingerprint_text(self.contract_id@),
                valid_fingerprint_text(self.asset@),
                recips == self.recipient_id@,
                kind == self.recipient_type,
                signer == account@,
                caddr == fingerprint_of_text(self.contract_id@),
                aid == fingerprint_of_text(self.asset@),
                asset_fp@ == aid,
                client.addr_key() == caddr,
                client.signer_key() == signer,
                forall|i: int| 0 <= i < k ==> valid_fingerprint_text((#[trigger] recips[i])@),
                forall|i: int|
                    0 <= i < k ==> #[trigger] batch_denial(
                        pre,
                        signer,
                        kind,
                        recips,
                        caddr,
                        aid,
                        self.amount,
                        i,
                    ) is None,
                batch_state(pre, *ledger, signer, kind, recips, caddr, aid, self.amount, k as int),
                ledger.rounds@ == pre.rounds@ + 1 + k,
            decreases n - k,
        {
            let rfp = match validate_fingerprint(self.recipient_id[k].as_str()) {
                Ok(f) => f,
                Err(e) => {
                    return Err(MintManyFailure { completed: k, error: e });
                },
            };
            let recipient = IdentityRef::from_kind(self.recipient_type, rfp);
            let ghost lj = *ledger;
            proof {
                lemma_batch_step_denial(
                    pre,
                    lj,
                    signer,
                    kind,
                    recips,
                    caddr,
                    aid,
                    self.amount,
                    k as int,
                );
                assert(id_key(recipient) == recipient_key(kind, recips[k as int]@));
            }
            match client.mint(ledger, recipient, &asset_fp, self.amount) {
                Ok(_) => {},
                Err(e) => {
                    proof {
                        assert(ledger.balances == lj.balances);
                        assert(ledger.contracts == lj.contracts);
                        assert forall|w: (bool, Seq<u8>), a: Seq<u8>| #[trigger]
                            bal(*ledger, w, a) == bal(lj, w, a) by {}
                        assert forall|a: Seq<u8>| #[trigger]
                            the_contract(ledger.contracts@, a) == the_contract(lj.contracts@, a)
                            by {}
                    }
                    return Err(MintManyFailure { completed: k, error: e });
                },
            }
            proof {
                let rk = recipient_key(kind, recips[k as int]@);
                let kk = k as int;
                assert forall|w: (bool, Seq<u8>), a: Seq<u8>| #[trigger]
                    bal(*ledger, w, a) == batch_bal(
                        pre,
                        signer,
                        kind,
                        recips,
                        aid,
                        self.amount,
                        kk + 1,
                        w,
                        a,
                    ) by {
                    let cc = credited_count(recips, kind, w, kk);
                    assert(credited_count(recips, kind, w, kk + 1) == cc + (if rk == w {
                        1int
                    } else {
                        0int
                    }));
                    assert(self.amount * (cc + 1) == self.amount * cc + self.amount)
                        by (nonlinear_arith);
                    assert(pre.fee * (kk + 1) == pre.fee * kk + pre.fee) by (nonlinear_arith);
                    assert(bal(lj, w, a) == batch_bal(
                        pre,
                        signer,
                        kind,
                        recips,
                        aid,
                        self.amount,
                        kk,
                        w,
                        a,
                    ));
                    if w == account_key(signer) && a == pre.base_asset@ {
                        assert(bal(lj, account_key(signer), lj.base_asset@) == batch_bal(
                            pre,
                            signer,
                            kind,
                            recips,
                            aid,
                            self.amount,
                            kk,
                            account_key(signer),
                            pre.base_asset@,
                        ));
                    }
                }
                let c0 = the_contract(pre.contracts@, caddr)->Some_0;
                let rec0 = record_of(c0.assets@, aid)->Some_0;
                let ck1 = the_contract(ledger.contracts@, caddr)->Some_0;
                assert(record_of(ck1.assets@, aid) == Some(ck1.assets@.last()));
                assert(ck1.assets@.last().supply == rec0.supply + self.amount * (kk + 1)) by {
                    assert(self.amount * (kk + 1) == self.amount * kk + self.amount)
                        by (nonlinear_arith);
                }
            }
            k = k + 1;
        }
        let ghost pm = *ledger;
        let after = account.balance_of(ledger, &base);
        proof {
            assert(ledger.balances == pm.balances);
            assert(ledger.contracts == pm.contracts);
            assert forall|w: (bool, Seq<u8>), a: Seq<u8>| #[trigger]
                bal(*ledger, w, a) == bal(pm, w, a) by {}
            assert forall|a: Seq<u8>| #[trigger]
                the_contract(ledger.contracts@, a) == the_contract(pm.contracts@, a) by {}
        }
        Ok(
            MintManySummary {
                completed: k,
                cost: before as i128 - after as i128,
                minter: account.address().dup(),
            },
        )
    }
}

/// The `total-assets` query command.
pub struct TotalAssetsCommand {
    pub contract_id: String,
}

impl TotalAssetsCommand {
    /// Validates the contract fingerprint, then reads the asset count
    /// through one simulated call.
    pub fn run(&self, ledger: &mut Ledger, account: &AccountHandle) -> (r: Result<u64, Error>)
        ensures
            !valid_fingerprint_text(self.contract_id@) ==> {
                &&& r is Err
                &&& r->Err_0 == (if self.contract_id@.len() != 66 {
                    Error::InvalidInputFormat
                } else {
                    Error::MalformedFingerprint
                })
                &&& *final(ledger) == *old(ledger)
            },
            valid_fingerprint_text(self.contract_id@) ==> {
                &&& same_except_rounds(*old(ledger), *final(ledger))
                &&& final(ledger).rounds@ == old(ledger).rounds@ + 1
                &&& match the_contract(
                    old(ledger).contracts@,
                    fingerprint_of_text(self.contract_id@),
                ) {
                    Some(c) => r is Ok && r->Ok_0 == c.asset_count,
                    None => r is Err && r->Err_0 == Error::ContractNotFound,
                }
            },
    {
        let contract_fp = match validate_fingerprint(self.contract_id.as_str()) {
            Ok(f) => f,
            Err(e) => return Err(e),
        };
        let client = MultiAssetContract::new(contract_fp, account.dup());
        client.total_assets(ledger)
    }
}


/// The `symbol` query command.
pub struct SymbolCommand {
    pub asset: String,
    pub contract_id: String,
}

impl SymbolCommand {
    /// Validates both fingerprints, then reads the asset's symbol through
    /// one simulated call; an unregistered asset is reported as
    /// `AssetNotFound`.
    pub fn run(&self, ledger: &mut Ledger, account: &AccountHandle) -> (r: Result<String, Error>)
        ensures
            !valid_fingerprint_text(self.contract_id@) ==> {
                &&& r is Err
                &&& r->Err_0 == (if self.contract_id@.len() != 66 {
                    Error::InvalidInputFormat
                } else {
                    Error::MalformedFingerprint
                })
                &&& *final(ledger) == *old(ledger)
            },
            valid_fingerprint_text(self.contract_id@) && !valid_fingerprint_text(self.asset@)
                ==> {
                &&& r is Err
                &&& r->Err_0 == (if self.asset@.len() != 66 {
                    Error::InvalidInputFormat
                } else {
                    Error::MalformedFingerprint
                })
                &&& *final(ledger) == *old(ledger)
            },
            valid_fingerprint_text(self.contract_id@) && valid_fingerprint_text(self.asset@)
                ==> {
                &&& same_except_rounds(*old(ledger), *final(ledger))
                &&& final(ledger).rounds@ == old(ledger).rounds@ + 1
                &&& match query_record(
                    *old(ledger),
                    fingerprint_of_text(self.contract_id@),
                    fingerprint_of_text(self.asset@),
                ) {
                    Err(e) => r is Err && r->Err_0 == e,
                    Ok(None) => r is Err && r->Err_0 == Error::AssetNotFound,
                    Ok(Some(rec)) => r is Ok && r->Ok_0@ == rec.symbol@,
                }
            },
    {
        let contract_fp = match validate_fingerprint(self.contract_id.as_str()) {
            Ok(f) => f,
            Err(e) => return Err(e),
        };
        let asset_fp = match validate_fingerprint(self.asset.as_str()) {
            Ok(f) => f,
            Err(e) => return Err(e),
        };
        let client = MultiAssetContract::new(contract_fp, account.dup());
        match client.symbol(ledger, &asset_fp) {
            Ok(Some(v)) => Ok(v),
            Ok(None) => Err(Error::AssetNotFound),
            Err(e) => Err(e),
        }
    }
}

/// The `name` query command.
pub struct NameCommand {
    pub asset: String,
    pub contract_id: String,
}

impl NameCommand {
    /// Validates both fingerprints, then reads the asset's name through
    /// one simulated call; an unregistered asset is reported as
    /// `AssetNotFound`.
    pub fn run(&self, ledger: &mut Ledger, account: &AccountHandle) -> (r: Result<String, Error>)
        ensures
            !valid_fingerprint_text(self.contract_id@) ==> {
                &&& r is Err
                &&& r->Err_0 == (if self.contract_id@.len() != 66 {
                    Error::InvalidInputFormat
                } else {
                    Error::MalformedFingerprint
                })
                &&& *final(ledger) == *old(ledger)
            },
            valid_fingerprint_text(self.contract_id@) && !valid_fingerprint_text(self.asset@)
                ==> {
                &&& r is Err
                &&& r->Err_0 == (if self.asset@.len() != 66 {
                    Error::InvalidInputFormat
                } else {
                    Error::MalformedFingerprint
                })
                &&& *final(ledger) == *old(ledger)
            },
            valid_fingerprint_text(self.contract_id@) && valid_fingerprint_text(self.asset@)
                ==> {
                &&& same_except_rounds(*old(ledger), *final(ledger))
                &&& final(ledger).rounds@ == old(ledger).rounds@ + 1
                &&& match query_record(
                    *old(ledger),
                    fingerprint_of_text(self.contract_id@),
                    fingerprint_of_text(self.asset@),
                ) {
                    Err(e) => r is Err && r->Err_0 == e,
                    Ok(None) => r is Err && r->Err_0 == Error::AssetNotFound,
                    Ok(Some(rec)) => r is Ok && r->Ok_0@ == rec.name@,
                }
            },
    {
        let contract_fp = match validate_fingerprint(self.contract_id.as_str()) {
            Ok(f) => f,
            Err(e) => return Err(e),
        };
        let asset_fp = match validate_fingerprint(self.asset.as_str()) {
            Ok(f) => f,
            Err(e) => return Err(e),
        };
        let client = MultiAssetContract::new(contract_fp, account.dup());
        match client.name(ledger, &asset_fp) {
            Ok(Some(v)) => Ok(v),
            Ok(None) => Err(Error::AssetNotFound),
            Err(e) => Err(e),
        }
    }
}

/// The `decimals` query command.
pub struct DecimalsCommand {
    pub asset: String,
    pub contract_id: String,
}

impl DecimalsCommand {
    /// Validates both fingerprints, then reads the asset's decimals through
    /// one simulated call; an unregistered asset is reported as
    /// `AssetNotFound`.
    pub fn run(&self, ledger: &mut Ledger, account: &AccountHandle) -> (r: Result<u8, Error>)
        ensures
            !valid_fingerprint_text(self.contract_id@) ==> {
                &&& r is Err
                &&& r->Err_0 == (if self.contract_id@.len() != 66 {
                    Error::InvalidInputFormat
                } else {
                    Error::MalformedFingerprint
                })
                &&& *final(ledger) == *old(ledger)
            },
            valid_fingerprint_text(self.contract_id@) && !valid_fingerprint_text(self.asset@)
                ==> {
                &&& r is Err
                &&& r->Err_0 == (if self.asset@.len() != 66 {
                    Error::InvalidInputFormat
                } else {
                    Error::MalformedFingerprint
                })
                &&& *final(ledger) == *old(ledger)
            },
            valid_fingerprint_text(self.contract_id@) && valid_fingerprint_text(self.asset@)
                ==> {
                &&& same_except_rounds(*old(ledger), *final(ledger))
                &&& final(ledger).rounds@ == old(ledger).rounds@ + 1
                &&& match query_record(
                    *old(ledger),
                    fingerprint_of_text(self.contract_id@),
                    fingerprint_of_text(self.asset@),
                ) {
                    Err(e) => r is Err && r->Err_0 == e,
                    Ok(None) => r is Err && r->Err_0 == Error::AssetNotFound,
                    Ok(Some(rec)) => r is Ok && r->Ok_0 == rec.decimals,
                }
            },
    {
        let contract_fp = match validate_fingerprint(self.contract_id.as_str()) {
            Ok(f) => f,
            Err(e) => return Err(e),
        };
        let asset_fp = match validate_fingerprint(self.asset.as_str()) {
            Ok(f) => f,
            Err(e) => return Err(e),
        };
        let client = MultiAssetContract::new(contract_fp, account.dup());
        match client.decimals(ledger, &asset_fp) {
            Ok(Some(v)) => Ok(v),
            Ok(None) => Err(Error::AssetNotFound),
            Err(e) => Err(e),
        }
    }
}

/// The `restricted-mint` query command.
pub struct RestrictedMintCommand {
    pub asset: String,
    pub contract_id: String,
}

impl RestrictedMintCommand {
    /// Validates both fingerprints, then reads the asset's restricted-mint flag through
    /// one simulated call; an unregistered asset is reported as
    /// `AssetNotFound`.
    pub fn run(&self, ledger: &mut Ledger, account: &AccountHandle) -> (r: Result<bool, Error>)
        ensures
            !valid_fingerprint_text(self.contract_id@) ==> {
                &&& r is Err
                &&& r->Err_0 == (if self.contract_id@.len() != 66 {
                    Error::InvalidInputFormat
                } else {
                    Error::MalformedFingerprint
                })
                &&& *final(ledger) == *old(ledger)
            },
            valid_fingerprint_text(self.contract_id@) && !valid_fingerprint_text(self.asset@)
                ==> {
                &&& r is Err
                &&& r->Err_0 == (if self.asset@.len() != 66 {
                    Error::InvalidInputFormat
                } else {
                    Error::MalformedFingerprint
                })
                &&& *final(ledger) == *old(ledger)
            },
            valid_fingerprint_text(self.contract_id@) && valid_fingerprint_text(self.asset@)
                ==> {
                &&& same_except_rounds(*old(ledger), *final(ledger))
                &&& final(ledger).rounds@ == old(ledger).rounds@ + 1
                &&& match query_record(
                    *old(ledger),
                    fingerprint_of_text(self.contract_id@),
                    fingerprint_of_text(self.asset@),
                ) {
                    Err(e) => r is Err && r->Err_0 == e,
                    Ok(None) => r is Err && r->Err_0 == Error::AssetNotFound,
                    Ok(Some(rec)) => r is Ok && r->Ok_0 == rec.restricted,
                }
            },
    {
        let contract_fp = match validate_fingerprint(self.contract_id.as_str()) {
            Ok(f) => f,
            Err(e) => return Err(e),
        };
        let asset_fp = match validate_fingerprint(self.asset.as_str()) {
            Ok(f) => f,
            Err(e) => return Err(e),
        };
        let client = MultiAssetContract::new(contract_fp, account.dup());
        match client.restricted_mint(ledger, &asset_fp) {
            Ok(Some(v)) => Ok(v),
            Ok(None) => Err(Error::AssetNotFound),
            Err(e) => Err(e),
        }
    }
}

/// The `total-supply` query command.
pub struct TotalSupplyCommand {
    pub asset: String,
    pub contract_id: String,
}

impl TotalSupplyCommand {
    /// Validates both fingerprints, then reads the asset's total supply through
    /// one simulated call; an unregistered asset is reported as
    /// `AssetNotFound`.
    pub fn run(&self, ledger: &mut Ledger, account: &AccountHandle) -> (r: Result<u64, Error>)
        ensures
            !valid_fingerprint_text(self.contract_id@) ==> {
                &&& r is Err
                &&& r->Err_0 == (if self.contract_id@.len() != 66 {
                    Error::InvalidInputFormat
                } else {
                    Error::MalformedFingerprint
                })
                &&& *final(ledger) == *old(ledger)
            },
            valid_fingerprint_text(self.contract_id@) && !valid_fingerprint_text(self.asset@)
                ==> {
                &&& r is Err
                &&& r->Err_0 == (if self.asset@.len() != 66 {
                    Error::InvalidInputFormat
                } else {
                    Error::MalformedFingerprint
                })
                &&& *final(ledger) == *old(ledger)
            },
            valid_fingerprint_text(self.contract_id@) && valid_fingerprint_text(self.asset@)
                ==> {
                &&& same_except_rounds(*old(ledger), *final(ledger))
                &&& final(ledger).rounds@ == old(ledger).rounds@ + 1
                &&& match query_record(
                    *old(ledger),
                    fingerprint_of_text(self.contract_id@),
                    fingerprint_of_text(self.asset@),
                ) {
                    Err(e) => r is Err && r->Err_0 == e,
                    Ok(None) => r is Err && r->Err_0 == Error::AssetNotFound,
                    Ok(Some(rec)) => r is Ok && r->Ok_0 == rec.supply,
                }
            },
    {
        let contract_fp = match validate_fingerprint(self.contract_id.as_str()) {
            Ok(f) => f,
            Err(e) => return Err(e),
        };
        let asset_fp = match validate_fingerprint(self.asset.as_str()) {
            Ok(f) => f,
            Err(e) => return Err(e),
        };
        let client = MultiAssetContract::new(contract_fp, account.dup());
        match client.total_supply(ledger, &asset_fp) {
            Ok(Some(v)) => Ok(v),
            Ok(None) => Err(Error::AssetNotFound),
            Err(e) => Err(e),
        }
    }
}


/// The `bech32-conv` utility command: converts a bech32-encoded address to
/// its fixed-width fingerprint. Pure local format conversion: no ledger, no
/// network round trip.
pub struct Bech32ConvCommand {
    pub bech32: String,
}

impl Bech32ConvCommand {
    /// Decodes the address, failing locally on any malformed text.
    pub fn run(&self) -> (r: Result<Fingerprint, Error>)
        ensures
            r is Ok <==> valid_bech32_address(self.bech32@),
            r is Ok ==> r->Ok_0@ == bech32_payload(self.bech32@),
            r is Err ==> r->Err_0 == Error::MalformedAddress,
    {
        bech32_to_fingerprint(self.bech32.as_str())
    }
}

} // verus!
