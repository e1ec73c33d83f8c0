use multiasset_sdk::client::{AccountHandle, Event, MultiAssetContract};
use multiasset_sdk::error::Error;
use multiasset_sdk::identity::{parse_fingerprint, Fingerprint, IdentityRef};
use multiasset_sdk::ledger::Ledger;

const FEE: u64 = 1000;
const COIN: u64 = 1_000_000_000_000;

fn hexstr(byte: &str) -> String {
    format!("0x{}", byte.repeat(32))
}

fn account(byte: &str) -> AccountHandle {
    AccountHandle::new(parse_fingerprint(&hexstr(byte)).unwrap())
}

fn setup() -> (Ledger, MultiAssetContract, AccountHandle, AccountHandle) {
    let mut ledger = Ledger::new(Fingerprint::zeroed(), FEE);
    let deployer = account("aa");
    let user = account("bb");
    ledger
        .fund(
            &IdentityRef::AccountAddress(deployer.address().dup()),
            &Fingerprint::zeroed(),
            COIN,
        )
        .unwrap();
    ledger
        .fund(&IdentityRef::AccountAddress(user.address().dup()), &Fingerprint::zeroed(), COIN)
        .unwrap();
    let contract = MultiAssetContract::deploy(&mut ledger, &deployer).unwrap();
    (ledger, contract, deployer, user)
}

#[test]
fn create_asset_restricted_mint() {
    let (mut ledger, contract, owner, _) = setup();

    let name = String::from("BTC_NAME");
    let symbol = String::from("BTC");
    let decimals = 8;
    let restricted_mint: bool = true;

    let response = contract
        .with_account(&owner)
        .asset_new(&mut ledger, &name, &symbol, decimals, restricted_mint)
        .unwrap();
    let asset = response.value;
    assert!(!asset.matches(&Fingerprint::zeroed()));

    assert_eq!(response.events.len(), 1);
    match &response.events[0] {
        Event::AssetNew { asset: ev_asset, name: ev_name, symbol: ev_symbol, decimals: ev_decimals, creator } => {
            assert!(ev_asset.matches(&asset));
            assert_eq!(ev_name, &name);
            assert_eq!(ev_symbol, &symbol);
            assert_eq!(*ev_decimals, decimals);
            match creator {
                IdentityRef::AccountAddress(fp) => assert!(fp.matches(owner.address())),
                IdentityRef::ContractAddress(_) => panic!("creator is not an account"),
            }
        },
        _ => panic!("expected an asset creation event"),
    }

    assert_eq!(contract.total_assets(&mut ledger).unwrap(), 1);
    assert_eq!(contract.total_supply(&mut ledger, &asset).unwrap(), Some(0));
    assert_eq!(contract.name(&mut ledger, &asset).unwrap(), Some(name.clone()));
    assert_eq!(contract.symbol(&mut ledger, &asset).unwrap(), Some(symbol.clone()));
    assert_eq!(contract.decimals(&mut ledger, &asset).unwrap(), Some(decimals));
    let found = contract.asset(&mut ledger, &name).unwrap().unwrap();
    assert!(found.matches(&asset));
    assert_eq!(contract.restricted_mint(&mut ledger, &asset).unwrap(), Some(restricted_mint));
}

#[test]
#[should_panic(expected = "NotOwner")]
fn create_asset_not_owner() {
    let (mut ledger, contract, _, user) = setup();

    let name = String::from("BTC_NAME");
    let symbol = String::from("BTC");
    let decimals = 8;

    contract
        .with_account(&user)
        .asset_new(&mut ledger, &name, &symbol, decimals, false)
        .unwrap();
}

#[test]
#[should_panic(expected = "AssetAlreadyExists")]
fn create_asset_already_exists() {
    let (mut ledger, contract, owner, _) = setup();

    let name = String::from("BTC_NAME");
    let symbol = String::from("BTC");
    let decimals = 8;

    contract
        .with_account(&owner)
        .asset_new(&mut ledger, &name, &symbol, decimals, false)
        .unwrap();

    let _ = contract
        .with_account(&owner)
        .asset_new(&mut ledger, &name, &symbol, decimals, false)
        .unwrap();
}

#[test]
#[should_panic(expected = "ZeroStringLength")]
fn create_asset_empty_name() {
    let (mut ledger, contract, owner, _) = setup();

    let name = String::from("");
    let symbol = String::from("BTC");
    let decimals = 8;

    contract
        .with_account(&owner)
        .asset_new(&mut ledger, &name, &symbol, decimals, false)
        .unwrap();
}

#[test]
#[should_panic(expected = "ZeroStringLength")]
fn create_asset_empty_symbol() {
    let (mut ledger, contract, owner, _) = setup();

    let name = String::from("BTC_NAME");
    let symbol = String::from("");
    let decimals = 8;

    contract
        .with_account(&owner)
        .asset_new(&mut ledger, &name, &symbol, decimals, false)
        .unwrap();
}

#[test]
fn create_asset_duplicate_keeps_first_queryable() {
    let (mut ledger, contract, owner, _) = setup();

    let name = String::from("GOLD");
    let symbol = String::from("AU");
    let first = contract
        .with_account(&owner)
        .asset_new(&mut ledger, &name, &symbol, 9, false)
        .unwrap()
        .value;

    let second = contract
        .with_account(&owner)
        .asset_new(&mut ledger, &name, &symbol, 9, false);
    match second {
        Err(Error::AssetAlreadyExists) => {},
        _ => panic!("second creation under the same pair must be refused"),
    }

    assert_eq!(contract.name(&mut ledger, &first).unwrap(), Some(name.clone()));
    assert_eq!(contract.symbol(&mut ledger, &first).unwrap(), Some(symbol.clone()));
    assert_eq!(contract.total_assets(&mut ledger).unwrap(), 1);
}

#[test]
fn asset_ids_follow_the_registration_counter() {
    let (mut ledger, contract, owner, _) = setup();

    let a1 = contract
        .with_account(&owner)
        .asset_new(&mut ledger, &String::from("ONE"), &String::from("I"), 0, false)
        .unwrap()
        .value;
    let a2 = contract
        .with_account(&owner)
        .asset_new(&mut ledger, &String::from("TWO"), &String::from("II"), 0, false)
        .unwrap()
        .value;

    assert_eq!(a1.as_bytes()[0], 1);
    assert_eq!(a2.as_bytes()[0], 2);
    for i in 1..32 {
        assert_eq!(a1.as_bytes()[i], 0);
        assert_eq!(a2.as_bytes()[i], 0);
    }
    assert!(!a1.matches(&a2));
}
