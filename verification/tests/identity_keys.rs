use mdk_cli::identity::{
    key_created, key_source, parse_secret_key, show_key, starts_with_nsec, KeyError, KeySource,
};
use nostr_sdk::{Keys, ToBech32};

#[test]
fn show_key_gives_hex_and_npub() {
    let keys = Keys::generate();
    let shown = show_key(&keys.public_key().to_bytes());
    assert_eq!(shown.hex, keys.public_key().to_hex());
    assert_eq!(shown.npub, keys.public_key().to_bech32().unwrap());
    assert!(shown.npub.starts_with("npub1"));
    assert_eq!(shown.hex.len(), 64);
}

#[test]
fn show_key_of_a_known_key() {
    let key: [u8; 32] = [
        0x3b, 0xf0, 0xc6, 0x3f, 0xcb, 0x93, 0x46, 0x34, 0x07, 0xaf, 0x97, 0xa5, 0xe5, 0xee, 0x64,
        0xfa, 0x88, 0x3d, 0x10, 0x7e, 0xf9, 0xe5, 0x58, 0x47, 0x2c, 0x4e, 0xb9, 0xaa, 0xae, 0xfa,
        0x45, 0x9d,
    ];
    let shown = show_key(&key);
    assert_eq!(shown.hex, "3bf0c63fcb93463407af97a5e5ee64fa883d107ef9e558472c4eb9aaaefa459d");
    assert_eq!(shown.npub, "npub180cvv07tjdrrgpa0j7j7tmnyl2yr6yr7l8j4s3evf6u64th6gkwsyjh6w6");
}

#[test]
fn nsec_prefix_is_recognized() {
    assert!(starts_with_nsec("nsec1abc"));
    assert!(starts_with_nsec("nsec"));
    assert!(!starts_with_nsec("nse"));
    assert!(!starts_with_nsec(""));
    assert!(!starts_with_nsec("Nsec1"));
    assert!(!starts_with_nsec(" nsec1"));
    assert!(!starts_with_nsec("npub1abc"));
}

#[test]
fn secret_key_is_read_from_hex_and_from_bech32() {
    let keys = Keys::generate();
    let hex = keys.secret_key().to_secret_hex();
    let nsec = keys.secret_key().to_bech32().unwrap();
    assert!(nsec.starts_with("nsec1"));
    assert_eq!(parse_secret_key(&hex).ok().unwrap(), *keys.secret_key());
    assert_eq!(parse_secret_key(&nsec).ok().unwrap(), *keys.secret_key());
}

#[test]
fn secret_key_errors_name_the_format() {
    assert_eq!(parse_secret_key("nsec1notakey").err(), Some(KeyError::InvalidNsec));
    assert_eq!(parse_secret_key("nsec").err(), Some(KeyError::InvalidNsec));
    assert_eq!(parse_secret_key("").err(), Some(KeyError::InvalidHex));
    assert_eq!(parse_secret_key("abcd").err(), Some(KeyError::InvalidHex));
    assert_eq!(parse_secret_key("zz").err(), Some(KeyError::InvalidHex));
    let npub = Keys::generate().public_key().to_bech32().unwrap();
    assert_eq!(parse_secret_key(&npub).err(), Some(KeyError::InvalidHex));
}

#[test]
fn key_comes_from_import_then_file_then_generation() {
    assert_eq!(key_source(true, true), KeySource::Import);
    assert_eq!(key_source(true, false), KeySource::Import);
    assert_eq!(key_source(false, true), KeySource::Existing);
    assert_eq!(key_source(false, false), KeySource::Generate);
    assert!(key_created(KeySource::Import));
    assert!(key_created(KeySource::Generate));
    assert!(!key_created(KeySource::Existing));
}
