use age::secrecy::ExposeSecret;
use bottle::decrypt_dir;
use bottle::encrypt_bytes;
use bottle::encrypt_dir;
use bottle::encrypt_dir_decrypt_dir_round_trip;
use bottle::pack_entries;
use bottle::pack_unpack_round_trip;
use bottle::unpack_entries;
use bottle::BottleError;
use bottle::FileEntry;
use bottle::Identity;
use bottle::DIRECTORY;
use bottle::REGULAR_FILE;

fn dir_identity() -> Identity {
    let secret = age::x25519::Identity::generate()
        .to_string()
        .expose_secret()
        .to_string();
    Identity::from_string(secret).expect("a freshly generated key is valid")
}

fn file_entry(path: &str, data: &[u8]) -> FileEntry {
    FileEntry { path: path.to_string(), kind: REGULAR_FILE, data: data.to_vec() }
}

#[test]
fn can_encrypt_and_decrypt_a_directory() {
    let key = dir_identity();
    let entries = vec![file_entry("file.txt", b"This is a file.\n")];

    let encrypted = encrypt_dir(&key.to_public(), &entries).unwrap();
    let decrypted = decrypt_dir(&key, &encrypted).unwrap();

    assert_eq!(decrypted.len(), 1);
    assert_eq!(decrypted[0].path, "file.txt");
    assert_eq!(decrypted[0].kind, REGULAR_FILE);
    assert_eq!(decrypted[0].data, b"This is a file.\n".to_vec());
}

#[test]
fn nested_paths_and_directory_entries_round_trip() {
    let entries = vec![
        FileEntry { path: "sub".to_string(), kind: DIRECTORY, data: vec![] },
        file_entry("sub/inner.txt", b"inner"),
        file_entry("top.bin", &[0u8, 1, 2, 255]),
    ];
    let back = pack_unpack_round_trip(&entries).unwrap();
    assert_eq!(back.len(), 3);
    assert_eq!(back[0].path, "sub");
    assert_eq!(back[0].kind, DIRECTORY);
    assert_eq!(back[1].path, "sub/inner.txt");
    assert_eq!(back[1].data, b"inner".to_vec());
    assert_eq!(back[2].path, "top.bin");
    assert_eq!(back[2].data, vec![0u8, 1, 2, 255]);
}

#[test]
fn an_empty_tree_round_trips() {
    let entries: Vec<FileEntry> = vec![];
    let back = pack_unpack_round_trip(&entries).unwrap();
    assert!(back.is_empty());
}

#[test]
fn the_whole_directory_pipeline_round_trips() {
    let key = dir_identity();
    let entries = vec![file_entry("a.txt", b"alpha"), file_entry("b.txt", b"beta")];
    let back = encrypt_dir_decrypt_dir_round_trip(&key, &entries).unwrap();
    assert_eq!(back.len(), 2);
    assert_eq!(back[0].data, b"alpha".to_vec());
    assert_eq!(back[1].data, b"beta".to_vec());
}

#[test]
fn unpacking_garbage_is_a_corrupt_archive() {
    assert_eq!(
        unpack_entries(b"junk that is not gzip").unwrap_err(),
        BottleError::CorruptArchive
    );
}

#[test]
fn a_decrypted_non_archive_is_a_corrupt_archive() {
    let key = dir_identity();
    // a valid age file whose plaintext is not a compressed archive
    let cipher = encrypt_bytes(&key.to_public(), b"hello");
    assert_eq!(decrypt_dir(&key, &cipher).unwrap_err(), BottleError::CorruptArchive);
}

#[test]
fn a_parent_traversal_path_cannot_be_packed() {
    let entries = vec![file_entry("../escape.txt", b"x")];
    assert_eq!(pack_entries(&entries).unwrap_err(), BottleError::WriteFailed);
}

#[test]
fn packing_compresses_repetitive_data() {
    let entries = vec![file_entry("zeros.bin", &[0u8; 16384])];
    let packed = pack_entries(&entries).unwrap();
    assert!(packed.len() < 16384);
    let back = unpack_entries(&packed).unwrap();
    assert_eq!(back[0].data.len(), 16384);
}

#[test]
fn entry_path_safety_is_decided() {
    assert!(bottle::is_safe_entry_path("file.txt"));
    assert!(bottle::is_safe_entry_path("sub/inner.txt"));
    assert!(!bottle::is_safe_entry_path("/etc/shadow"));
    assert!(!bottle::is_safe_entry_path("../escape.txt"));
    assert!(!bottle::is_safe_entry_path("sub/../../escape.txt"));
    assert!(!bottle::is_safe_entry_path(""));
}
