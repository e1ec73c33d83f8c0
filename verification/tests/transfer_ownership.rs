use multiasset_sdk::client::{AccountHandle, Event, MultiAssetContract};
use multiasset_sdk::identity::{parse_fingerprint, Fingerprint, IdentityRef};
use multiasset_sdk::ledger::Ledger;

const FEE: u64 = 1000;
const COIN: u64 = 1_000_000_000_000;

fn hexstr(byte: &str) -> String {
    format!("0x{}", byte.repeat(32))
}

fn account(byte: &str) -> AccountHandle {
    AccountHandle::new(parse_fingerprint(&hexstr(byte)).unwrap())
}

fn setup() -> (Ledger, MultiAssetContract, AccountHandle, AccountHandle) {
    let mut ledger = Ledger::new(Fingerprint::zeroed(), FEE);
    let deployer = account("aa");
    let user = account("bb");
    ledger
        .fund(
            &IdentityRef::AccountAddress(deployer.address().dup()),
            &Fingerprint::zeroed(),
            COIN,
        )
        .unwrap();
    ledger
        .fund(&IdentityRef::AccountAddress(user.address().dup()), &Fingerprint::zeroed(), COIN)
        .unwrap();
    let contract = MultiAssetContract::deploy(&mut ledger, &deployer).unwrap();
    (ledger, contract, deployer, user)
}

#[test]
fn transfer_ownership() {
    let (mut ledger, contract, owner, user) = setup();

    let name = String::from("BTC");
    let symbol = String::from("BTC");
    let decimals = 8;

    contract
        .with_account(&owner)
        .asset_new(&mut ledger, &name, &symbol, decimals, false)
        .unwrap();

    let response = contract
        .with_account(&owner)
        .transfer_ownership(&mut ledger, IdentityRef::AccountAddress(user.address().dup()))
        .unwrap();

    assert_eq!(response.events.len(), 1);
    match &response.events[0] {
        Event::OwnershipTransferred { new_owner, previous_owner } => {
            match new_owner {
                IdentityRef::AccountAddress(fp) => assert!(fp.matches(user.address())),
                IdentityRef::ContractAddress(_) => panic!("new owner is not an account"),
            }
            match previous_owner {
                IdentityRef::AccountAddress(fp) => assert!(fp.matches(owner.address())),
                IdentityRef::ContractAddress(_) => panic!("previous owner is not an account"),
            }
        },
        _ => panic!("expected an ownership transfer event"),
    }

    let symbol = String::from("BTC_II");
    contract
        .with_account(&user)
        .asset_new(&mut ledger, &name, &symbol, decimals, false)
        .unwrap();
}

#[test]
#[should_panic(expected = "NotOwner")]
fn transfer_ownership_not_owner() {
    let (mut ledger, contract, owner, user) = setup();

    let name = String::from("BTC");
    let symbol = String::from("BTC");
    let decimals = 8;

    contract
        .with_account(&owner)
        .asset_new(&mut ledger, &name, &symbol, decimals, false)
        .unwrap();

    contract
        .with_account(&user)
        .transfer_ownership(&mut ledger, IdentityRef::AccountAddress(user.address().dup()))
        .unwrap();
}

#[test]
#[should_panic(expected = "NotOwner")]
fn transfer_ownership_verify_old_owner() {
    let (mut ledger, contract, owner, user) = setup();

    let name = String::from("BTC");
    let symbol = String::from("BTC");
    let decimals = 8;

    contract
        .with_account(&owner)
        .asset_new(&mut ledger, &name, &symbol, decimals, false)
        .unwrap();

    contract
        .with_account(&user)
        .transfer_ownership(&mut ledger, IdentityRef::AccountAddress(user.address().dup()))
        .unwrap();

    contract
        .with_account(&owner)
        .asset_new(&mut ledger, &name, &symbol, decimals, true)
        .unwrap();
}

#[test]
fn transfer_then_old_owner_is_gated() {
    let (mut ledger, contract, owner, user) = setup();

    contract
        .with_account(&owner)
        .transfer_ownership(&mut ledger, IdentityRef::AccountAddress(user.address().dup()))
        .unwrap();

    let by_old = contract
        .with_account(&owner)
        .asset_new(&mut ledger, &String::from("BTC"), &String::from("BTC"), 8, false);
    match by_old {
        Err(multiasset_sdk::error::Error::NotOwner) => {},
        _ => panic!("the previous owner must be refused with NotOwner"),
    }

    contract
        .with_account(&user)
        .asset_new(&mut ledger, &String::from("BTC"), &String::from("BTC"), 8, false)
        .unwrap();
}
