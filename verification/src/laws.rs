//! Laws of the client, proved once and for all states: creation round trips,
//! uniqueness of (name, symbol) pairs, zero-mint rejection, the
//! restricted-mint policy, accumulation of repeated mints, owner-gating
//! across an ownership transfer, distinctness of deployed addresses, and
//! the fail-fast, no-rollback shape of a batch mint.

use vstd::prelude::*;

use crate::client::{
    asset_new_denial, asset_new_post, mint_denial, mint_post, mint_recipient_start, owner_is,
    query_by_name, query_record, spec_asset_id,
};
use crate::commands::{batch_denial, batch_state, credited_count, recipient_key};
use crate::error::Error;
use crate::identity::{account_key, id_key, valid_fingerprint_text, IdentityKind, IdentityRef};
use crate::ledger::{bal, has_pair, record_by_name, record_of, the_contract, Ledger};

verus! {

/// Round trip: after a successful `asset_new`, querying the new asset's
/// record returns exactly the values supplied at creation — name, symbol,
/// decimals, restricted-mint flag, a total supply of zero — the name lookup
/// returns the new fingerprint, and the asset count has grown by one.
pub proof fn lemma_asset_new_round_trip(
    pre: Ledger,
    post: Ledger,
    caddr: Seq<u8>,
    signer: Seq<u8>,
    name: Seq<char>,
    symbol: Seq<char>,
    decimals: u8,
    restricted: bool,
    rid: Seq<u8>,
)
    requires
        asset_new_denial(pre, caddr, signer, name, symbol) is None,
        asset_new_post(pre, post, caddr, signer, name, symbol, decimals, restricted),
        rid == spec_asset_id(the_contract(pre.contracts@, caddr)->Some_0.asset_count + 1),
    ensures
        ({
            let found = query_record(post, caddr, rid);
            &&& found matches Ok(r2)
            &&& r2 matches Some(rec)
            &&& rec.name@ == name
            &&& rec.symbol@ == symbol
            &&& rec.decimals == decimals
            &&& rec.restricted == restricted
            &&& rec.supply == 0
        }),
        ({
            let named = query_by_name(post, caddr, name);
            &&& named matches Ok(r3)
            &&& r3 matches Some(rec)
            &&& rec.asset_id@ == rid
        }),
        the_contract(post.contracts@, caddr)->Some_0.asset_count == the_contract(
            pre.contracts@,
            caddr,
        )->Some_0.asset_count + 1,
{
    let c2 = the_contract(post.contracts@, caddr)->Some_0;
    let nr = c2.assets@.last();
    assert(record_of(c2.assets@, rid) == Some(nr));
    assert(record_by_name(c2.assets@, name) == Some(nr));
}

/// Uniqueness: once an asset with a given (name, symbol) pair is created, a
/// second creation under the same pair is refused with `AssetAlreadyExists`
/// whoever the owner then is, and the first asset stays queryable. A refused
/// `asset_new` leaves the ledger unchanged by its own contract, so the first
/// asset also stays queryable after the failed attempt.
pub proof fn lemma_asset_pair_unique(
    pre: Ledger,
    post: Ledger,
    caddr: Seq<u8>,
    signer: Seq<u8>,
    name: Seq<char>,
    symbol: Seq<char>,
    decimals: u8,
    restricted: bool,
    signer2: Seq<u8>,
)
    requires
        asset_new_denial(pre, caddr, signer, name, symbol) is None,
        asset_new_post(pre, post, caddr, signer, name, symbol, decimals, restricted),
        owner_is(the_contract(post.contracts@, caddr)->Some_0, signer2),
    ensures
        asset_new_denial(post, caddr, signer2, name, symbol) == Some(Error::AssetAlreadyExists),
        ({
            let rid = spec_asset_id(the_contract(pre.contracts@, caddr)->Some_0.asset_count + 1);
            let found = query_record(post, caddr, rid);
            &&& found matches Ok(r2)
            &&& r2 matches Some(rec)
            &&& rec.name@ == name
            &&& rec.symbol@ == symbol
        }),
{
    let c2 = the_contract(post.contracts@, caddr)->Some_0;
    let nr = c2.assets@.last();
    assert(c2.assets@[c2.assets@.len() - 1] == nr);
    assert(has_pair(c2.assets@, name, symbol));
    let rid = spec_asset_id(the_contract(pre.contracts@, caddr)->Some_0.asset_count + 1);
    assert(record_of(c2.assets@, rid) == Some(nr));
}

/// Zero mints are always refused: whenever the contract exists, a mint of
/// amount zero is denied with `ZeroValue`, whoever signs it and whatever the
/// asset. By `mint`'s own contract every denied mint leaves the ledger
/// unchanged, so the recipient's balance does not move.
pub proof fn lemma_mint_zero_refused(
    l: Ledger,
    caddr: Seq<u8>,
    signer: Seq<u8>,
    recip: (bool, Seq<u8>),
    asset: Seq<u8>,
)
    requires
        the_contract(l.contracts@, caddr) is Some,
    ensures
        mint_denial(l, caddr, signer, recip, asset, 0) == Some(Error::ZeroValue),
{
}

/// The restricted-mint policy: an asset registered with the flag set can be
/// minted only by the owner — every non-owner is refused with `NotOwner` —
/// while an asset registered with the flag clear is mintable by any signer
/// that can pay the fee, owner or not.
pub proof fn lemma_restricted_mint_policy(
    l: Ledger,
    caddr: Seq<u8>,
    signer: Seq<u8>,
    recip: (bool, Seq<u8>),
    asset: Seq<u8>,
    amount: u64,
)
    requires
        the_contract(l.contracts@, caddr) is Some,
        record_of(the_contract(l.contracts@, caddr)->Some_0.assets@, asset) is Some,
        amount > 0,
    ensures
        ({
            let c = the_contract(l.contracts@, caddr)->Some_0;
            let rec = record_of(c.assets@, asset)->Some_0;
            &&& (rec.restricted && !owner_is(c, signer) ==> mint_denial(
                l,
                caddr,
                signer,
                recip,
                asset,
                amount,
            ) == Some(Error::NotOwner))
            &&& (!rec.restricted && rec.supply + amount <= u64::MAX && bal(
                l,
                account_key(signer),
                l.base_asset@,
            ) >= l.fee && mint_recipient_start(l, signer, recip, asset) + amount <= u64::MAX
                ==> mint_denial(l, caddr, signer, recip, asset, amount) is None)
        }),
{
}

/// Accumulation: two successful mints of amount `amount` to the same
/// recipient add `2 * amount` to that recipient's balance — accumulation,
/// not overwrite. The recipient's balance of the minted asset must not be
/// the account that pays the fees in the base currency (minting the base
/// currency to the payer itself interleaves fee deductions with the
/// credits).
pub proof fn lemma_mint_twice_accumulates(
    l0: Ledger,
    l1: Ledger,
    l2: Ledger,
    caddr: Seq<u8>,
    signer: Seq<u8>,
    recip: (bool, Seq<u8>),
    asset: Seq<u8>,
    amount: u64,
)
    requires
        mint_denial(l0, caddr, signer, recip, asset, amount) is None,
        mint_post(l0, l1, caddr, signer, recip, asset, amount),
        mint_denial(l1, caddr, signer, recip, asset, amount) is None,
        mint_post(l1, l2, caddr, signer, recip, asset, amount),
        !(recip == account_key(signer) && asset == l0.base_asset@),
    ensures
        bal(l2, recip, asset) == bal(l0, recip, asset) + 2 * amount,
{
    assert(mint_recipient_start(l0, signer, recip, asset) == bal(l0, recip, asset) as int);
    assert(bal(l1, recip, asset) == (bal(l0, recip, asset) + amount) as u64);
    assert(l1.base_asset@ == l0.base_asset@);
    assert(mint_recipient_start(l1, signer, recip, asset) == bal(l1, recip, asset) as int);
    assert(bal(l2, recip, asset) == (bal(l1, recip, asset) + amount) as u64);
}

/// Owner-gating across a transfer: after the current owner hands ownership
/// to a new account, the contract's owner is exactly the new account; every
/// owner-gated `asset_new` signed by the previous owner is denied with
/// `NotOwner`, and the new owner passes the ownership gate.
pub proof fn lemma_ownership_transferred(
    pre: Ledger,
    post: Ledger,
    caddr: Seq<u8>,
    prev_signer: Seq<u8>,
    new_owner: IdentityRef,
    new_signer: Seq<u8>,
    name: Seq<char>,
    symbol: Seq<char>,
)
    requires
        crate::client::transfer_denial(pre, caddr, prev_signer) is None,
        crate::client::owner_set_post(pre, post, caddr, prev_signer, new_owner),
        id_key(new_owner) == account_key(new_signer),
        new_signer != prev_signer,
    ensures
        owner_is(the_contract(post.contracts@, caddr)->Some_0, new_signer),
        !owner_is(the_contract(post.contracts@, caddr)->Some_0, prev_signer),
        asset_new_denial(post, caddr, prev_signer, name, symbol) == Some(Error::NotOwner),
{
    let c2 = the_contract(post.contracts@, caddr)->Some_0;
    assert(c2.owner == Some(new_owner));
}

/// Distinct deployments: a deployment only ever returns an address that was
/// free beforehand, so two deployments that both succeed — even with the
/// same code and the same account — return different contract addresses.
/// (That the random salts themselves differ is a probabilistic fact the
/// model does not claim.)
pub proof fn lemma_deploy_twice_distinct(mid: Ledger, addr1: Seq<u8>, addr2: Seq<u8>)
    requires
        the_contract(mid.contracts@, addr1) is Some,
        the_contract(mid.contracts@, addr2) is None,
    ensures
        addr1 != addr2,
{
}


/// Batch fail-fast without rollback: a batch mint over three recipients
/// whose second is malformed, where the first step is admissible (the batch
/// could start at all), stops exactly after the first recipient. The first
/// recipient keeps its credited amount and the asset's supply keeps the one
/// minted amount — no compensation is performed — the third recipient's
/// balance never moves, and only two round trips were issued (the balance
/// snapshot and the single mint), so no call was ever made for the third
/// recipient. The hypotheses are what `MintManyCommand::run` ensures of a
/// failed batch, plus the scenario itself; the measured balances must not
/// be the fee payer's base-currency balance, which fees move as well.
pub proof fn lemma_batch_stops_at_first_malformed(
    pre: Ledger,
    post: Ledger,
    signer: Seq<u8>,
    kind: IdentityKind,
    recips: Seq<String>,
    caddr: Seq<u8>,
    aid: Seq<u8>,
    amount: u64,
    completed: int,
    error: Error,
)
    requires
        recips.len() == 3,
        valid_fingerprint_text(recips[0]@),
        !valid_fingerprint_text(recips[1]@),
        valid_fingerprint_text(recips[2]@),
        0 <= completed < recips.len(),
        forall|i: int| 0 <= i < completed ==> valid_fingerprint_text((#[trigger] recips[i])@),
        forall|i: int|
            0 <= i < completed ==> #[trigger] batch_denial(
                pre,
                signer,
                kind,
                recips,
                caddr,
                aid,
                amount,
                i,
            ) is None,
        batch_state(pre, post, signer, kind, recips, caddr, aid, amount, completed),
        (if !valid_fingerprint_text(recips[completed]@) {
            error == (if recips[completed]@.len() != 66 {
                Error::InvalidInputFormat
            } else {
                Error::MalformedFingerprint
            })
        } else {
            batch_denial(pre, signer, kind, recips, caddr, aid, amount, completed) == Some(error)
        }),
        post.rounds@ == pre.rounds@ + 1 + completed + (if valid_fingerprint_text(
            recips[completed]@,
        ) {
            1int
        } else {
            0int
        }),
        batch_denial(pre, signer, kind, recips, caddr, aid, amount, 0) is None,
        !(recipient_key(kind, recips[0]@) == account_key(signer) && aid == pre.base_asset@),
        !(recipient_key(kind, recips[2]@) == account_key(signer) && aid == pre.base_asset@),
        recipient_key(kind, recips[2]@) != recipient_key(kind, recips[0]@),
    ensures
        completed == 1,
        error == (if recips[1]@.len() != 66 {
            Error::InvalidInputFormat
        } else {
            Error::MalformedFingerprint
        }),
        bal(post, recipient_key(kind, recips[0]@), aid) == bal(
            pre,
            recipient_key(kind, recips[0]@),
            aid,
        ) + amount,
        bal(post, recipient_key(kind, recips[2]@), aid) == bal(
            pre,
            recipient_key(kind, recips[2]@),
            aid,
        ),
        ({
            let c0 = the_contract(pre.contracts@, caddr)->Some_0;
            let rec0 = record_of(c0.assets@, aid)->Some_0;
            &&& the_contract(pre.contracts@, caddr) is Some
            &&& record_of(c0.assets@, aid) is Some
            &&& match the_contract(post.contracts@, caddr) {
                Some(ck) => record_of(ck.assets@, aid) matches Some(rk) && rk.supply == rec0.supply
                    + amount,
                None => false,
            }
        }),
        post.rounds@ == pre.rounds@ + 2,
{
    if completed == 0 {
        assert(batch_denial(pre, signer, kind, recips, caddr, aid, amount, 0) is Some);
    }
    if completed == 2 {
        assert(valid_fingerprint_text(recips[1]@));
    }
    assert(completed == 1);
    let r1 = recipient_key(kind, recips[0]@);
    let r3 = recipient_key(kind, recips[2]@);
    assert(credited_count(recips, kind, r1, 0) == 0);
    assert(credited_count(recips, kind, r3, 0) == 0);
    assert(credited_count(recips, kind, r1, 1) == 1);
    assert(credited_count(recips, kind, r3, 1) == 0);
    assert(bal(post, r1, aid) == crate::commands::batch_bal(
        pre,
        signer,
        kind,
        recips,
        aid,
        amount,
        1,
        r1,
        aid,
    ));
    assert(bal(post, r3, aid) == crate::commands::batch_bal(
        pre,
        signer,
        kind,
        recips,
        aid,
        amount,
        1,
        r3,
        aid,
    ));
}

} // verus!
