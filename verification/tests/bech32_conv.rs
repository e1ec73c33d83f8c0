use multiasset_sdk::commands::Bech32ConvCommand;
use multiasset_sdk::error::Error;
use multiasset_sdk::bech32::bech32_to_fingerprint;

// An address whose payload is the byte 1, thirty zero bytes, and the byte
// 42, under the human-readable part "fuel".
const ADDR_A: &str = "fuel1qyqqqqqqqqqqqqqqqqqqqqqqqqqqqqqqqqqqqqqqqqqqqqqqqq4qlmkkwj";
// An address whose payload is the bytes 0 through 31 in order.
const ADDR_B: &str = "fuel1qqqsyqcyq5rqwzqfpg9scrgwpugpzysnzs23v9ccrydpk8qarc0svw34w3";

#[test]
fn bech32_decodes_known_addresses() {
    let fp = bech32_to_fingerprint(ADDR_A).unwrap();
    assert_eq!(fp.as_bytes().len(), 32);
    assert_eq!(fp.as_bytes()[0], 1);
    for i in 1..31 {
        assert_eq!(fp.as_bytes()[i], 0);
    }
    assert_eq!(fp.as_bytes()[31], 42);

    let fp = bech32_to_fingerprint(ADDR_B).unwrap();
    for i in 0..32 {
        assert_eq!(fp.as_bytes()[i] as usize, i);
    }
}

#[test]
fn bech32_accepts_an_all_uppercase_address() {
    let upper = ADDR_A.to_uppercase();
    let fp = bech32_to_fingerprint(&upper).unwrap();
    assert_eq!(fp.as_bytes()[0], 1);
    assert_eq!(fp.as_bytes()[31], 42);
}

#[test]
fn bech32_rejects_mixed_case() {
    let mut mixed = String::from("FUEL");
    mixed.push_str(&ADDR_A[4..]);
    match bech32_to_fingerprint(&mixed) {
        Err(Error::MalformedAddress) => {},
        _ => panic!("a mixed-case address must be rejected"),
    }
}

#[test]
fn bech32_rejects_a_corrupted_checksum() {
    // Swap the final character for another charset character.
    let mut corrupted = String::from(&ADDR_A[..ADDR_A.len() - 1]);
    corrupted.push('q');
    match bech32_to_fingerprint(&corrupted) {
        Err(Error::MalformedAddress) => {},
        _ => panic!("a corrupted checksum must be rejected"),
    }
}

#[test]
fn bech32_rejects_bad_shapes() {
    for bad in ["", "fuel1", "fuel", "1qqqq", "fuel1b!d"] {
        match bech32_to_fingerprint(bad) {
            Err(Error::MalformedAddress) => {},
            _ => panic!("a malformed address must be rejected"),
        }
    }
    // A charset violation inside the data part.
    let mut bad = String::from(&ADDR_A[..ADDR_A.len() - 1]);
    bad.push('b');
    match bech32_to_fingerprint(&bad) {
        Err(Error::MalformedAddress) => {},
        _ => panic!("a non-charset data character must be rejected"),
    }
}

#[test]
fn bech32_conv_command_reports_the_payload() {
    let cmd = Bech32ConvCommand { bech32: String::from(ADDR_A) };
    let fp = cmd.run().unwrap();
    assert_eq!(fp.as_bytes()[31], 42);
}
