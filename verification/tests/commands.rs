use multiasset_sdk::client::{AccountHandle, DeployError, MultiAssetContract};
use multiasset_sdk::commands::{
    AssetNewCommand, DeployCommand, MintCommand, MintManyCommand, SymbolCommand,
    TotalAssetsCommand, TotalSupplyCommand, validate_fingerprint,
};
use multiasset_sdk::error::Error;
use multiasset_sdk::identity::{parse_fingerprint, Fingerprint, IdentityKind, IdentityRef};
use multiasset_sdk::ledger::Ledger;

const FEE: u64 = 1000;
const COIN: u64 = 1_000_000_000_000;
const SALT: [u8; 32] = [0x22; 32];

fn hexstr(byte: &str) -> String {
    format!("0x{}", byte.repeat(32))
}

fn account(byte: &str) -> AccountHandle {
    AccountHandle::new(parse_fingerprint(&hexstr(byte)).unwrap())
}

fn fund(ledger: &mut Ledger, who: &AccountHandle, amount: u64) {
    ledger
        .fund(&IdentityRef::AccountAddress(who.address().dup()), &Fingerprint::zeroed(), amount)
        .unwrap();
}

/// A ledger with one contract deployed at the known salt address, owned by
/// the returned account; its textual contract id is `hexstr("22")`.
fn setup_at_known_address() -> (Ledger, AccountHandle) {
    let mut ledger = Ledger::new(Fingerprint::zeroed(), FEE);
    let owner = account("aa");
    fund(&mut ledger, &owner, COIN);
    let addr = MultiAssetContract::submit_code(&mut ledger, &owner, &SALT).unwrap();
    let client = MultiAssetContract::new(addr, owner.dup());
    client
        .initialize_ownership(&mut ledger, IdentityRef::AccountAddress(owner.address().dup()))
        .unwrap();
    (ledger, owner)
}

#[test]
fn parse_fingerprint_exact_bytes() {
    let mut text = String::from("0x");
    text.push_str(&"00".repeat(31));
    text.push_str("2a");
    let fp = parse_fingerprint(&text).unwrap();
    assert_eq!(fp.as_bytes().len(), 32);
    for i in 0..31 {
        assert_eq!(fp.as_bytes()[i], 0);
    }
    assert_eq!(fp.as_bytes()[31], 0x2a);
}

#[test]
fn validate_rejects_wrong_length_before_hex() {
    match validate_fingerprint("0x123") {
        Err(Error::InvalidInputFormat) => {},
        _ => panic!("a short fingerprint must be rejected by its length"),
    }
    let bad_hex = format!("0x{}", "zz".repeat(32));
    match validate_fingerprint(&bad_hex) {
        Err(Error::MalformedFingerprint) => {},
        _ => panic!("a 66-character non-hex fingerprint must be rejected as malformed"),
    }
    assert!(validate_fingerprint(&hexstr("ab")).is_ok());
}

#[test]
fn commands_fail_locally_on_short_fingerprints() {
    let (mut ledger, owner) = setup_at_known_address();
    let contracts_before = ledger.contracts.len();
    let balances_before = ledger.balances.len();

    let mint = MintCommand {
        recipient_id: hexstr("bb"),
        recipient_type: IdentityKind::Address,
        asset: String::from("0x1234"),
        amount: 5,
        contract_id: hexstr("22"),
    };
    match mint.run(&mut ledger, &owner) {
        Err(Error::InvalidInputFormat) => {},
        _ => panic!("a fingerprint of the wrong length must fail locally"),
    }

    let query = TotalAssetsCommand { contract_id: String::from("0xabc") };
    match query.run(&mut ledger, &owner) {
        Err(Error::InvalidInputFormat) => {},
        _ => panic!("a fingerprint of the wrong length must fail locally"),
    }

    assert_eq!(ledger.contracts.len(), contracts_before);
    assert_eq!(ledger.balances.len(), balances_before);
}

#[test]
fn asset_new_command_reports_the_fee_as_cost() {
    let (mut ledger, owner) = setup_at_known_address();
    let cmd = AssetNewCommand {
        name: String::from("BTC_NAME"),
        symbol: String::from("BTC"),
        decimals: 8,
        restricted_mint: false,
        contract_id: hexstr("22"),
    };
    let summary = cmd.run(&mut ledger, &owner).unwrap();
    assert_eq!(summary.cost, FEE as i128);
    assert!(summary.creator.matches(owner.address()));
    assert!(!summary.asset.matches(&Fingerprint::zeroed()));

    let query = TotalAssetsCommand { contract_id: hexstr("22") };
    assert_eq!(query.run(&mut ledger, &owner).unwrap(), 1);
}

#[test]
fn mint_command_reports_delta_and_cost() {
    let (mut ledger, owner) = setup_at_known_address();
    let create = AssetNewCommand {
        name: String::from("BTC_NAME"),
        symbol: String::from("BTC"),
        decimals: 8,
        restricted_mint: false,
        contract_id: hexstr("22"),
    };
    create.run(&mut ledger, &owner).unwrap();

    // The first registered asset's fingerprint: the counter 1 in
    // little-endian bytes, zero-padded.
    let asset_hex = format!("0x01{}", "00".repeat(31));
    let cmd = MintCommand {
        recipient_id: hexstr("bb"),
        recipient_type: IdentityKind::Address,
        asset: asset_hex.clone(),
        amount: 777,
        contract_id: hexstr("22"),
    };
    let summary = cmd.run(&mut ledger, &owner).unwrap();
    assert_eq!(summary.minted, 777);
    assert_eq!(summary.cost, FEE as i128);

    let supply = TotalSupplyCommand { asset: asset_hex.clone(), contract_id: hexstr("22") };
    assert_eq!(supply.run(&mut ledger, &owner).unwrap(), 777);

    let recipient = account("bb");
    let asset_fp = parse_fingerprint(&asset_hex).unwrap();
    assert_eq!(recipient.balance_of(&mut ledger, &asset_fp), 777);
}

#[test]
fn mint_many_stops_at_the_first_malformed_recipient() {
    let (mut ledger, owner) = setup_at_known_address();
    let create = AssetNewCommand {
        name: String::from("BTC_NAME"),
        symbol: String::from("BTC"),
        decimals: 8,
        restricted_mint: false,
        contract_id: hexstr("22"),
    };
    create.run(&mut ledger, &owner).unwrap();

    let asset_hex = format!("0x01{}", "00".repeat(31));
    let r1 = hexstr("01");
    let r2 = format!("0x{}", "zz".repeat(32));
    let r3 = hexstr("03");
    let cmd = MintManyCommand {
        recipient_id: vec![r1, r2, r3],
        recipient_type: IdentityKind::Address,
        asset: asset_hex.clone(),
        amount: 50,
        contract_id: hexstr("22"),
    };
    match cmd.run(&mut ledger, &owner) {
        Err(failure) => {
            assert_eq!(failure.completed, 1);
            assert_eq!(failure.error, Error::MalformedFingerprint);
        },
        Ok(_) => panic!("the batch must stop at the malformed recipient"),
    }

    let asset_fp = parse_fingerprint(&asset_hex).unwrap();
    assert_eq!(account("01").balance_of(&mut ledger, &asset_fp), 50);
    assert_eq!(account("03").balance_of(&mut ledger, &asset_fp), 0);
    let supply = TotalSupplyCommand { asset: asset_hex, contract_id: hexstr("22") };
    assert_eq!(supply.run(&mut ledger, &owner).unwrap(), 50);
}

#[test]
fn mint_many_credits_every_recipient_in_order() {
    let (mut ledger, owner) = setup_at_known_address();
    let create = AssetNewCommand {
        name: String::from("BTC_NAME"),
        symbol: String::from("BTC"),
        decimals: 8,
        restricted_mint: false,
        contract_id: hexstr("22"),
    };
    create.run(&mut ledger, &owner).unwrap();

    let asset_hex = format!("0x01{}", "00".repeat(31));
    let cmd = MintManyCommand {
        recipient_id: vec![hexstr("01"), hexstr("02"), hexstr("01")],
        recipient_type: IdentityKind::Address,
        asset: asset_hex.clone(),
        amount: 10,
        contract_id: hexstr("22"),
    };
    let summary = cmd.run(&mut ledger, &owner).unwrap();
    assert_eq!(summary.completed, 3);
    assert_eq!(summary.cost, 3 * FEE as i128);

    let asset_fp = parse_fingerprint(&asset_hex).unwrap();
    assert_eq!(account("01").balance_of(&mut ledger, &asset_fp), 20);
    assert_eq!(account("02").balance_of(&mut ledger, &asset_fp), 10);
}

#[test]
fn deploy_twice_yields_distinct_addresses() {
    let mut ledger = Ledger::new(Fingerprint::zeroed(), FEE);
    let deployer = account("aa");
    fund(&mut ledger, &deployer, COIN);
    let c1 = MultiAssetContract::deploy(&mut ledger, &deployer).unwrap();
    let c2 = MultiAssetContract::deploy(&mut ledger, &deployer).unwrap();
    assert!(!c1.id().matches(&c2.id()));
}

#[test]
fn deploy_command_reports_two_fees_as_cost() {
    let mut ledger = Ledger::new(Fingerprint::zeroed(), FEE);
    let deployer = account("aa");
    fund(&mut ledger, &deployer, COIN);
    let summary = DeployCommand {}.run(&mut ledger, &deployer).unwrap();
    assert_eq!(summary.cost, 2 * FEE as i128);
    assert!(summary.deployer.matches(deployer.address()));
}

#[test]
fn deploy_with_one_fee_leaves_an_ownerless_contract() {
    let mut ledger = Ledger::new(Fingerprint::zeroed(), FEE);
    let deployer = account("aa");
    fund(&mut ledger, &deployer, FEE + FEE / 2);
    match MultiAssetContract::deploy(&mut ledger, &deployer) {
        Err(DeployError::Ownerless { contract, cause }) => {
            assert_eq!(cause, Error::InsufficientFunds);
            // Recovery path: fund the account and retry the one-time
            // ownership initialization against the existing address.
            fund(&mut ledger, &deployer, COIN);
            let client = MultiAssetContract::new(contract, deployer.dup());
            client
                .initialize_ownership(
                    &mut ledger,
                    IdentityRef::AccountAddress(deployer.address().dup()),
                )
                .unwrap();
            assert_eq!(client.total_assets(&mut ledger).unwrap(), 0);
        },
        _ => panic!("a deployment that cannot pay the second fee must report Ownerless"),
    }
}

#[test]
fn initialize_ownership_is_one_time() {
    let (mut ledger, owner) = setup_at_known_address();
    let client = MultiAssetContract::new(
        parse_fingerprint(&hexstr("22")).unwrap(),
        owner.dup(),
    );
    match client.initialize_ownership(
        &mut ledger,
        IdentityRef::AccountAddress(owner.address().dup()),
    ) {
        Err(Error::AlreadyInitialized) => {},
        _ => panic!("a second ownership initialization must be refused"),
    }
}

#[test]
fn submit_code_refuses_a_used_salt() {
    let (mut ledger, owner) = setup_at_known_address();
    match MultiAssetContract::submit_code(&mut ledger, &owner, &SALT) {
        Err(Error::AddressInUse) => {},
        _ => panic!("a second submission with the same salt must collide"),
    }
}

#[test]
fn queries_against_an_unbound_address_fail() {
    let mut ledger = Ledger::new(Fingerprint::zeroed(), FEE);
    let someone = account("aa");
    let query = TotalAssetsCommand { contract_id: hexstr("77") };
    match query.run(&mut ledger, &someone) {
        Err(Error::ContractNotFound) => {},
        _ => panic!("a query against an unbound address must fail"),
    }
}

#[test]
fn symbol_command_reads_back_the_created_symbol() {
    let (mut ledger, owner) = setup_at_known_address();
    let create = AssetNewCommand {
        name: String::from("BTC_NAME"),
        symbol: String::from("BTC"),
        decimals: 8,
        restricted_mint: true,
        contract_id: hexstr("22"),
    };
    create.run(&mut ledger, &owner).unwrap();
    let asset_hex = format!("0x01{}", "00".repeat(31));
    let cmd = SymbolCommand { asset: asset_hex.clone(), contract_id: hexstr("22") };
    assert_eq!(cmd.run(&mut ledger, &owner).unwrap(), String::from("BTC"));

    let missing = format!("0x09{}", "00".repeat(31));
    let cmd = SymbolCommand { asset: missing, contract_id: hexstr("22") };
    match cmd.run(&mut ledger, &owner) {
        Err(Error::AssetNotFound) => {},
        _ => panic!("an unregistered asset must be reported as not found"),
    }
}

#[test]
fn poor_owner_cannot_pay_the_fee() {
    let (mut ledger, owner) = setup_at_known_address();
    // An owner funded with exactly the two deployment fees has nothing left
    // for further transactional calls.
    let mut poor_ledger = Ledger::new(Fingerprint::zeroed(), FEE);
    let poor = account("cc");
    fund(&mut poor_ledger, &poor, 2 * FEE);
    let client = MultiAssetContract::deploy(&mut poor_ledger, &poor).unwrap();
    match client.asset_new(&mut poor_ledger, &String::from("A"), &String::from("A"), 0, false) {
        Err(Error::InsufficientFunds) => {},
        _ => panic!("an unfunded signer must be refused"),
    }
    // The funded ledger still works.
    let create = AssetNewCommand {
        name: String::from("A"),
        symbol: String::from("A"),
        decimals: 0,
        restricted_mint: false,
        contract_id: hexstr("22"),
    };
    create.run(&mut ledger, &owner).unwrap();
}

#[test]
fn funding_cannot_overflow_a_balance() {
    let mut ledger = Ledger::new(Fingerprint::zeroed(), FEE);
    let rich = account("aa");
    fund(&mut ledger, &rich, u64::MAX);
    match ledger.fund(
        &IdentityRef::AccountAddress(rich.address().dup()),
        &Fingerprint::zeroed(),
        1,
    ) {
        Err(Error::Overflow) => {},
        _ => panic!("funding past the balance width must be refused"),
    }
    assert_eq!(rich.balance_of(&mut ledger, &Fingerprint::zeroed()), u64::MAX);
}
