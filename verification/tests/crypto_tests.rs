use age::secrecy::ExposeSecret;
use bottle::decrypt_bytes;
use bottle::encrypt_bytes;
use bottle::encrypt_decrypt_round_trip;
use bottle::BottleError;
use bottle::Identity;

fn fresh_identity() -> Identity {
    let secret = age::x25519::Identity::generate()
        .to_string()
        .expose_secret()
        .to_string();
    Identity::from_string(secret).expect("a freshly generated key is valid")
}

#[test]
fn can_encrypt_and_decrypt_bytes() {
    let key = fresh_identity();
    let pubkey = key.to_public();

    let plain = b"hello".to_vec();
    let encrypted = encrypt_bytes(&pubkey, &plain);
    assert_ne!(encrypted, plain);

    let decrypted = decrypt_bytes(&key, &encrypted).unwrap();
    assert_eq!(decrypted, plain);
}

#[test]
fn an_empty_plaintext_round_trips() {
    let key = fresh_identity();
    let encrypted = encrypt_bytes(&key.to_public(), &[]);
    assert_eq!(decrypt_bytes(&key, &encrypted).unwrap(), Vec::<u8>::new());
}

#[test]
fn the_round_trip_helper_returns_the_plaintext() {
    let key = fresh_identity();
    assert_eq!(encrypt_decrypt_round_trip(&key, b"any payload"), b"any payload".to_vec());
}

#[test]
fn the_wrong_identity_fails_decryption() {
    let key = fresh_identity();
    let other = fresh_identity();
    let encrypted = encrypt_bytes(&key.to_public(), b"secret stuff");
    assert_eq!(
        decrypt_bytes(&other, &encrypted),
        Err(BottleError::DecryptionFailed)
    );
}

#[test]
fn garbage_ciphertext_fails_decryption() {
    let key = fresh_identity();
    assert_eq!(
        decrypt_bytes(&key, b"this is not an age file"),
        Err(BottleError::DecryptionFailed)
    );
}

#[test]
fn invalid_identity_text_is_rejected() {
    assert!(Identity::from_string("not a key".to_string()).is_none());
    assert!(Identity::from_string(String::new()).is_none());
}

#[test]
fn the_public_key_differs_from_the_secret_key() {
    let secret = age::x25519::Identity::generate()
        .to_string()
        .expose_secret()
        .to_string();
    let key = Identity::from_string(secret.clone()).unwrap();
    let public_text = key.to_public().key_string();
    assert!(public_text.starts_with("age1"));
    assert_ne!(public_text, secret);
}

#[test]
fn a_key_file_text_yields_its_identity() {
    let generated = age::x25519::Identity::generate();
    let secret = generated.to_string().expose_secret().to_string();
    let text = format!(
        "# created: some day\r\n# public key: {}\r\n{}\r\n",
        generated.to_public(),
        secret
    );
    let key = bottle::read_key_from_text(&text).expect("the data line holds the key");
    let round = bottle::encrypt_decrypt_round_trip(&key, b"check");
    assert_eq!(round, b"check".to_vec());
}

#[test]
fn key_file_text_without_a_data_line_yields_nothing() {
    assert!(bottle::read_key_from_text("# only a comment\n\n").is_none());
    assert!(bottle::read_key_from_text("").is_none());
}

#[test]
fn a_bad_data_line_in_key_file_text_yields_nothing() {
    assert!(bottle::read_key_from_text("# comment\nnot a key\n").is_none());
}
