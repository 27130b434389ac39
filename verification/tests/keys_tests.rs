use feth::keys::{extract_keypair, Address, KeyPair, SecretKey};

fn hex(bytes: &[u8]) -> String {
    let mut out = String::new();
    for b in bytes {
        out.push_str(&format!("{:02x}", b));
    }
    out
}

fn key_one() -> SecretKey {
    let mut bytes = [0u8; 32];
    bytes[31] = 1;
    SecretKey { bytes }
}

#[test]
fn address_of_the_key_one_is_the_known_one() {
    let address = Address::of_secret(&key_one()).unwrap();
    assert_eq!(hex(&address.bytes), "7e5f4552091a69125d5dfcb7b8c2659029395bdf");
}

#[test]
fn address_of_the_key_two_is_the_known_one() {
    let mut bytes = [0u8; 32];
    bytes[31] = 2;
    let address = Address::of_secret(&SecretKey { bytes }).unwrap();
    assert_eq!(hex(&address.bytes), "2b5ad5c4795c026514f8317c7a215e218dccd6cf");
}

#[test]
fn zero_is_no_signing_key() {
    assert_eq!(Address::of_secret(&SecretKey { bytes: [0u8; 32] }), None);
}

#[test]
fn a_key_at_the_order_of_the_curve_is_no_signing_key() {
    assert_eq!(Address::of_secret(&SecretKey { bytes: [0xff; 32] }), None);
}

#[test]
fn secret_key_parses_from_64_hex_digits() {
    let text = "0000000000000000000000000000000000000000000000000000000000000001";
    assert_eq!(SecretKey::parse(text), Some(key_one()));
    assert_eq!(SecretKey::parse("01"), None);
    assert_eq!(SecretKey::parse(""), None);
    assert_eq!(
        SecretKey::parse("000000000000000000000000000000000000000000000000000000000000000g"),
        None
    );
    assert_eq!(
        SecretKey::parse("0000000000000000000000000000000000000000000000000000000000000000"),
        None
    );
}

#[test]
fn address_parses_with_and_without_prefix() {
    let want = Address::of_secret(&key_one()).unwrap();
    assert_eq!(Address::parse("7e5f4552091a69125d5dfcb7b8c2659029395bdf"), Some(want));
    assert_eq!(Address::parse("0x7e5f4552091a69125d5dfcb7b8c2659029395bdf"), Some(want));
    assert_eq!(Address::parse("0x7E5F4552091A69125D5DFCB7B8C2659029395BDF"), Some(want));
    assert_eq!(Address::parse("7e5f"), None);
    assert_eq!(Address::parse(""), None);
    assert_eq!(Address::parse("0x7e5f4552091a69125d5dfcb7b8c2659029395bdf00"), None);
}

#[test]
fn key_pair_parses_both_texts_or_nothing() {
    let good = KeyPair {
        address: "0x7e5f4552091a69125d5dfcb7b8c2659029395bdf".to_string(),
        private: "0000000000000000000000000000000000000000000000000000000000000001".to_string(),
    };
    let (secret, address) = good.parse().unwrap();
    assert_eq!(secret, key_one());
    assert_eq!(hex(&address.bytes), "7e5f4552091a69125d5dfcb7b8c2659029395bdf");
    let bad_address = KeyPair { address: "nope".to_string(), private: good.private.clone() };
    assert_eq!(bad_address.parse(), None);
    let bad_key = KeyPair { address: good.address.clone(), private: "nope".to_string() };
    assert_eq!(bad_key.parse(), None);
}

#[test]
fn extract_keypair_ignores_white_space_around_the_key() {
    let text = "  0000000000000000000000000000000000000000000000000000000000000001\n";
    let (secret, address) = extract_keypair(text).unwrap();
    assert_eq!(secret, key_one());
    assert_eq!(hex(&address.bytes), "7e5f4552091a69125d5dfcb7b8c2659029395bdf");
}

#[test]
fn extract_keypair_refuses_text_that_holds_no_key() {
    assert_eq!(extract_keypair(""), None);
    assert_eq!(extract_keypair("not a key"), None);
    assert_eq!(
        extract_keypair("00000000000000000000000000000000 00000000000000000000000000000001"),
        None
    );
}

#[test]
fn fresh_addresses_differ() {
    let a = Address::fresh();
    let b = Address::fresh();
    assert_ne!(a, b);
}

#[test]
fn an_address_is_the_last_twenty_bytes_of_the_hash() {
    let mut digest = [0u8; 32];
    for (i, b) in digest.iter_mut().enumerate() {
        *b = i as u8;
    }
    let address = Address::from_digest(&digest);
    assert_eq!(
        address.bytes,
        [12, 13, 14, 15, 16, 17, 18, 19, 20, 21, 22, 23, 24, 25, 26, 27, 28, 29, 30, 31]
    );
}

#[test]
fn the_address_of_a_public_key_leaves_its_tag_byte_out() {
    // the public key of the signing key one
    let text = "0479be667ef9dcbbac55a06295ce870b07029bfcdb2dce28d959f2815b16f81798\
                483ada7726a3c4655da4fbfc0e1108a8fd17b448a68554199c47d08ffb10d4b8";
    let mut public_key = [0u8; 65];
    for i in 0..65 {
        public_key[i] = u8::from_str_radix(&text[2 * i..2 * i + 2], 16).unwrap();
    }
    let address = Address::of_public_key(&public_key);
    assert_eq!(hex(&address.bytes), "7e5f4552091a69125d5dfcb7b8c2659029395bdf");
    // another tag byte gives the same address
    public_key[0] = 0;
    assert_eq!(Address::of_public_key(&public_key), address);
}

#[test]
fn a_fresh_address_belongs_to_the_key_it_was_made_from() {
    for _ in 0..8 {
        let (secret, address) = Address::fresh_with_key();
        assert_eq!(Address::of_secret(&secret), Some(address));
    }
    let (first, _) = Address::fresh_with_key();
    let (second, _) = Address::fresh_with_key();
    assert_ne!(first, second);
}
