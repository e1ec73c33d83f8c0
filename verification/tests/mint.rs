use multiasset_sdk::client::{AccountHandle, Event, MultiAssetContract};
use multiasset_sdk::error::Error;
use multiasset_sdk::identity::{parse_fingerprint, Fingerprint, IdentityRef};
use multiasset_sdk::ledger::Ledger;

const FEE: u64 = 1000;
const COIN: u64 = 1_000_000_000_000;

fn hexstr(byte: &str) -> String {
    format!("0x{}", byte.repeat(32))
}

fn account(byte: &str) -> AccountHandle {
    AccountHandle::new(parse_fingerprint(&hexstr(byte)).unwrap())
}

fn setup() -> (Ledger, MultiAssetContract, AccountHandle, AccountHandle) {
    let mut ledger = Ledger::new(Fingerprint::zeroed(), FEE);
    let deployer = account("aa");
    let user = account("bb");
    ledger
        .fund(
            &IdentityRef::AccountAddress(deployer.address().dup()),
            &Fingerprint::zeroed(),
            COIN,
        )
        .unwrap();
    ledger
        .fund(&IdentityRef::AccountAddress(user.address().dup()), &Fingerprint::zeroed(), COIN)
        .unwrap();
    let contract = MultiAssetContract::deploy(&mut ledger, &deployer).unwrap();
    (ledger, contract, deployer, user)
}

#[test]
fn mint() {
    let (mut ledger, contract, minter, user) = setup();

    let name = String::from("BTC");
    let symbol = String::from("BTC");
    let decimals = 8;

    let asset = contract
        .with_account(&minter)
        .asset_new(&mut ledger, &name, &symbol, decimals, false)
        .unwrap()
        .value;

    assert_eq!(user.balance_of(&mut ledger, &asset), 0);

    let amount: u64 = 1_000_000_000;
    let recipient = IdentityRef::AccountAddress(user.address().dup());

    let response = contract
        .with_account(&minter)
        .mint(&mut ledger, recipient.dup(), &asset, amount)
        .unwrap();

    assert_eq!(response.events.len(), 1);
    match &response.events[0] {
        Event::AssetMinted { recipient: ev_recipient, asset: ev_asset, amount: ev_amount, minter: ev_minter } => {
            match ev_recipient {
                IdentityRef::AccountAddress(fp) => assert!(fp.matches(user.address())),
                IdentityRef::ContractAddress(_) => panic!("recipient is not an account"),
            }
            assert!(ev_asset.matches(&asset));
            assert_eq!(*ev_amount, amount);
            match ev_minter {
                IdentityRef::AccountAddress(fp) => assert!(fp.matches(minter.address())),
                IdentityRef::ContractAddress(_) => panic!("minter is not an account"),
            }
        },
        _ => panic!("expected a mint event"),
    }

    assert_eq!(user.balance_of(&mut ledger, &asset), amount);

    contract
        .with_account(&minter)
        .mint(&mut ledger, recipient.dup(), &asset, amount)
        .unwrap();

    assert_eq!(user.balance_of(&mut ledger, &asset), 2 * amount);
}

#[test]
#[should_panic(expected = "NotOwner")]
fn mint_not_owner() {
    let (mut ledger, contract, minter, user) = setup();

    let name = String::from("BTC");
    let symbol = String::from("BTC");
    let decimals = 8;

    contract
        .with_account(&minter)
        .asset_new(&mut ledger, &name, &symbol, decimals, false)
        .unwrap();

    let amount: u64 = 1_000_000_000;
    let recipient = IdentityRef::AccountAddress(user.address().dup());

    contract
        .with_account(&user)
        .mint(&mut ledger, recipient, &Fingerprint::zeroed(), amount)
        .unwrap();
}

#[test]
#[should_panic(expected = "ZeroValue")]
fn mint_zero_amount() {
    let (mut ledger, contract, minter, user) = setup();

    let name = String::from("BTC");
    let symbol = String::from("BTC");
    let decimals = 8;

    let asset = contract
        .with_account(&minter)
        .asset_new(&mut ledger, &name, &symbol, decimals, false)
        .unwrap()
        .value;

    assert_eq!(user.balance_of(&mut ledger, &asset), 0);

    let amount: u64 = 0;
    let recipient = IdentityRef::AccountAddress(user.address().dup());

    contract
        .with_account(&minter)
        .mint(&mut ledger, recipient, &asset, amount)
        .unwrap();
}

#[test]
#[should_panic(expected = "AssetNotFound")]
fn mint_bad_asset() {
    let (mut ledger, contract, minter, user) = setup();

    let name = String::from("BTC");
    let symbol = String::from("BTC");
    let decimals = 8;

    contract
        .with_account(&minter)
        .asset_new(&mut ledger, &name, &symbol, decimals, false)
        .unwrap();

    let amount: u64 = 1_000_000_000;
    let recipient = IdentityRef::AccountAddress(user.address().dup());

    contract
        .with_account(&minter)
        .mint(&mut ledger, recipient, &Fingerprint::zeroed(), amount)
        .unwrap();
}

#[test]
fn mint_zero_leaves_balance_unchanged() {
    let (mut ledger, contract, minter, user) = setup();

    let asset = contract
        .with_account(&minter)
        .asset_new(&mut ledger, &String::from("BTC"), &String::from("BTC"), 8, false)
        .unwrap()
        .value;

    let recipient = IdentityRef::AccountAddress(user.address().dup());
    contract
        .with_account(&minter)
        .mint(&mut ledger, recipient.dup(), &asset, 5)
        .unwrap();
    assert_eq!(user.balance_of(&mut ledger, &asset), 5);

    let refused = contract.with_account(&minter).mint(&mut ledger, recipient, &asset, 0);
    match refused {
        Err(Error::ZeroValue) => {},
        _ => panic!("a zero mint must be refused with ZeroValue"),
    }
    assert_eq!(user.balance_of(&mut ledger, &asset), 5);
    assert_eq!(contract.total_supply(&mut ledger, &asset).unwrap(), Some(5));
}

#[test]
fn mint_unrestricted_asset_by_non_owner() {
    let (mut ledger, contract, minter, user) = setup();

    let asset = contract
        .with_account(&minter)
        .asset_new(&mut ledger, &String::from("OPEN"), &String::from("OPN"), 6, false)
        .unwrap()
        .value;

    let target = IdentityRef::AccountAddress(minter.address().dup());
    contract
        .with_account(&user)
        .mint(&mut ledger, target, &asset, 40)
        .unwrap();

    assert_eq!(minter.balance_of(&mut ledger, &asset), 40);
    assert_eq!(contract.total_supply(&mut ledger, &asset).unwrap(), Some(40));
}

#[test]
fn mint_restricted_asset_by_non_owner() {
    let (mut ledger, contract, minter, user) = setup();

    let asset = contract
        .with_account(&minter)
        .asset_new(&mut ledger, &String::from("GATED"), &String::from("GTD"), 6, true)
        .unwrap()
        .value;

    let target = IdentityRef::AccountAddress(user.address().dup());
    match contract.with_account(&user).mint(&mut ledger, target, &asset, 40) {
        Err(Error::NotOwner) => {},
        _ => panic!("a non-owner must not mint a restricted asset"),
    }
    assert_eq!(user.balance_of(&mut ledger, &asset), 0);

    let target = IdentityRef::AccountAddress(user.address().dup());
    contract
        .with_account(&minter)
        .mint(&mut ledger, target, &asset, 40)
        .unwrap();
    assert_eq!(user.balance_of(&mut ledger, &asset), 40);
}
