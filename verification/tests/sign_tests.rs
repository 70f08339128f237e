use hilen_release::sign::{
    env_key_usable, meta_path, public_key_path, update_key_env, update_key_path, KeyCheck,
    SignError, UpdateKey,
};

// RFC 8032, section 7.1, test 1.
const SECRET: &str = "9d61b19deffd5a60ba844af492ec2cc44449c5697b326919703bac031cae7f60";
const PUBLIC: &str = "d75a980182b10ab7d54bfed3c964073a0ee172f3daa62325af021a68f707511a";
const SIG_EMPTY: &str = "e5564300c360ac729086e2cc806e828a84877f1eb8e5d974d873e065224901555fb8821590a33bacc61e39701cf9b46bd25bf5f0595bbe24655141438e7a100b";

#[test]
fn key_names_and_paths() {
    assert_eq!(update_key_env("my-app"), "MY_APP_UPDATE_KEY");
    assert_eq!(update_key_path("/home/u", "my-app"), "/home/u/.config/my-app-hilen/update-key.hex");
    assert_eq!(public_key_path(), "assets/update-key.pub");
    assert_eq!(meta_path("dist/a.exe"), "dist/a.exe.meta.json");
}

#[test]
fn a_blank_variable_holds_no_key() {
    assert!(!env_key_usable("  \n"));
    assert!(!env_key_usable(""));
    assert!(env_key_usable(" ab "));
}

#[test]
fn keys_are_read_from_hex() {
    assert!(UpdateKey::from_hex(&format!("  {SECRET}\n")).is_ok());
    assert!(UpdateKey::from_hex(&SECRET.to_uppercase()).is_ok());
    assert_eq!(UpdateKey::from_hex("zz").err(), Some(SignError::NotHex));
    assert_eq!(UpdateKey::from_hex("abc").err(), Some(SignError::NotHex));
    assert_eq!(UpdateKey::from_hex("abcd").err(), Some(SignError::KeyLength));
}

#[test]
fn the_public_half_is_the_rfc_one() {
    let key = UpdateKey::from_hex(SECRET).unwrap();
    assert_eq!(key.public_hex(), PUBLIC);
}

#[test]
fn the_public_key_file_is_checked() {
    let key = UpdateKey::from_hex(SECRET).unwrap();
    assert_eq!(key.check_public_key(None), Ok(KeyCheck::NotChecked));
    assert_eq!(key.check_public_key(Some(&format!("{PUBLIC}\n"))), Ok(KeyCheck::Matches));
    assert_eq!(key.check_public_key(Some("00ff")), Err(SignError::KeyMismatch));
}

#[test]
fn meta_of_an_empty_artifact() {
    let key = UpdateKey::from_hex(SECRET).unwrap();
    let meta = key.meta(&[]);
    assert_eq!(meta.size, 0);
    assert_eq!(meta.sha256, "e3b0c44298fc1c149afbf4c8996fb92427ae41e4649b934ca495991b7852b855");
    assert_eq!(meta.sig, SIG_EMPTY);
}

#[test]
fn meta_of_some_bytes() {
    let key = UpdateKey::from_hex(SECRET).unwrap();
    let meta = key.meta(b"abc");
    assert_eq!(meta.size, 3);
    assert_eq!(meta.sha256, "ba7816bf8f01cfea414140de5dae2223b00361a396177a9cb410ff61f20015ad");
    assert_eq!(meta.sig.len(), 128);
}

#[test]
fn public_hex_reads_back_as_a_key() {
    let key = UpdateKey::from_hex(SECRET).unwrap();
    let again = UpdateKey::from_hex(&key.public_hex()).unwrap();
    assert_eq!(again.public_hex().len(), 64);
}
