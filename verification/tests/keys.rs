use mitmproxy_wireguard::keys::genkey;
use mitmproxy_wireguard::keys::parse_public_key;
use mitmproxy_wireguard::keys::parse_secret_key;
use mitmproxy_wireguard::keys::pubkey;
use mitmproxy_wireguard::keys::KeyError;
use mitmproxy_wireguard::keys::KEY_LEN;

const SECRET_HEX: &str = "77076d0a7318a57d3c16c17251b26645df4c2f87ebc0992ab177fba51db92c2a";
const SECRET_B64: &str = "dwdtCnMYpX08FsFyUbJmRd9ML4frwJkqsXf7pR25LCo=";
const PUBLIC_B64: &str = "hSDwCYkwp1R0i33ctD73Wg2/Og0mOBr066SpjqqbTmo=";
const OTHER_SECRET_B64: &str = "XasIfmJKikt54X+Lg4AO5m87sSkmGLb9HC+LJ/+I4Os=";
const OTHER_PUBLIC_B64: &str = "3p7bfXt9wbTTW2HC7OQ1Nz+DQ8hbeGdNrfx+FG+IK08=";

#[test]
fn key_length_is_32() {
    assert_eq!(KEY_LEN, 32);
}

#[test]
fn genkey_gives_base64_of_32_bytes() {
    let text = genkey();
    assert_eq!(text.len(), 44);
    assert!(text.is_ascii());
    let bytes = base64::decode(&text).expect("base64");
    assert_eq!(bytes.len(), 32);
}

#[test]
fn genkey_gives_a_new_key_each_time() {
    assert_ne!(genkey(), genkey());
}

#[test]
fn genkey_then_pubkey_gives_32_byte_public_key() {
    let secret = genkey();
    let public = pubkey(secret.clone()).expect("a generated key has a public key");
    assert_eq!(public.len(), 44);
    assert_ne!(public, secret);
    assert_eq!(base64::decode(&public).expect("base64").len(), 32);
}

#[test]
fn pubkey_of_known_base64_key() {
    assert_eq!(pubkey(SECRET_B64.to_string()), Ok(PUBLIC_B64.to_string()));
    assert_eq!(pubkey(OTHER_SECRET_B64.to_string()), Ok(OTHER_PUBLIC_B64.to_string()));
}

#[test]
fn pubkey_of_known_hex_key() {
    assert_eq!(pubkey(SECRET_HEX.to_string()), Ok(PUBLIC_B64.to_string()));
}

#[test]
fn pubkey_is_a_function_of_the_key() {
    let secret = genkey();
    assert_eq!(pubkey(secret.clone()), pubkey(secret));
}

#[test]
fn pubkey_refuses_what_is_no_key() {
    assert_eq!(pubkey(String::new()), Err(KeyError::InvalidPrivateKey));
    assert_eq!(pubkey("not a key".to_string()), Err(KeyError::InvalidPrivateKey));
    let bad_hex = "zz076d0a7318a57d3c16c17251b26645df4c2f87ebc0992ab177fba51db92c2a";
    assert_eq!(pubkey(bad_hex.to_string()), Err(KeyError::InvalidPrivateKey));
}

#[test]
fn pubkey_refuses_64_bytes_that_are_not_ascii() {
    // 32 two-byte characters, and a text whose pairs of bytes cut characters in two.
    let aligned = "\u{e9}".repeat(32);
    assert_eq!(aligned.len(), 64);
    assert_eq!(pubkey(aligned), Err(KeyError::InvalidPrivateKey));
    let shifted = format!("a{}b", "\u{e9}".repeat(31));
    assert_eq!(shifted.len(), 64);
    assert_eq!(pubkey(shifted), Err(KeyError::InvalidPrivateKey));
}

#[test]
fn key_error_message() {
    assert_eq!(KeyError::InvalidPrivateKey.message(), "Invalid private key.");
}

#[test]
fn parse_secret_key_reads_both_encodings() {
    let from_hex = parse_secret_key(SECRET_HEX).expect("hex");
    let from_b64 = parse_secret_key(SECRET_B64).expect("base64");
    assert_eq!(from_hex.as_bytes(), from_b64.as_bytes());
    assert_eq!(from_hex.as_bytes().len(), 32);
    assert_eq!(from_hex.as_bytes()[0], 0x77);
    assert_eq!(from_hex.as_bytes()[31], 0x2a);
}

#[test]
fn parse_secret_key_messages() {
    assert_eq!(parse_secret_key("abc").err(), Some("Illegal key size".to_string()));
    assert_eq!(parse_secret_key("").err(), Some("Illegal key size".to_string()));
    let bad_hex = "zz076d0a7318a57d3c16c17251b26645df4c2f87ebc0992ab177fba51db92c2a";
    assert_eq!(parse_secret_key(bad_hex).err(), Some("Illegal character in key".to_string()));
    // 44 characters of base64 that decode to 33 bytes.
    let long = base64::encode([7u8; 33]);
    assert_eq!(long.len(), 44);
    assert_eq!(parse_secret_key(&long).err(), Some("Illegal character in key".to_string()));
    let shifted = format!("a{}b", "\u{e9}".repeat(31));
    assert_eq!(parse_secret_key(&shifted).err(), Some("Illegal character in key".to_string()));
}

#[test]
fn parse_public_key_reads_the_bytes() {
    let key = parse_public_key(PUBLIC_B64).expect("base64");
    assert_eq!(key.as_bytes(), base64::decode(PUBLIC_B64).unwrap().as_slice());
    assert_eq!(parse_public_key("short").err(), Some("Illegal key size".to_string()));
}

#[test]
fn key_text_that_is_not_base64_is_refused() {
    let broken = "dwdtCnMYpX08FsFyUbJmRd9ML4frwJkqsXf7pR25LC!=";
    assert_eq!(broken.len(), 44);
    assert_eq!(parse_secret_key(broken).err(), Some("Illegal character in key".to_string()));
    assert_eq!(parse_public_key(broken).err(), Some("Illegal character in key".to_string()));
    assert_eq!(pubkey(broken.to_string()), Err(KeyError::InvalidPrivateKey));
    let spaced = "dwdtCnMYpX08FsFyUbJmRd9ML4 rwJkqsXf7pR25LCo";
    assert_eq!(spaced.len(), 43);
    assert_eq!(parse_secret_key(spaced).err(), Some("Illegal character in key".to_string()));
    let accented = format!("{}{}", "\u{e9}".repeat(21), "ab");
    assert_eq!(accented.len(), 44);
    assert_eq!(parse_secret_key(&accented).err(), Some("Illegal character in key".to_string()));
}

#[test]
fn key_text_without_padding_is_read() {
    let bare = &SECRET_B64[..43];
    let key = parse_secret_key(bare).expect("base64 without padding");
    assert_eq!(key.as_bytes(), parse_secret_key(SECRET_HEX).unwrap().as_bytes());
    assert_eq!(pubkey(bare.to_string()), Ok(PUBLIC_B64.to_string()));
}
