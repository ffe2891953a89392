use bottle::compose_path_for_temp_tar_file;
use bottle::compute_output_name;
use bottle::determine_output_file_name;
use bottle::has_base_name;
use bottle::Action;

#[test]
fn encrypt_file_name_appends_age() {
    assert_eq!(
        compute_output_name("plain.txt", &Action::EncryptFile, None),
        "plain.txt.age"
    );
}

#[test]
fn encrypt_dir_name_appends_the_directory_suffix() {
    assert_eq!(
        compute_output_name("test-dir", &Action::EncryptDir, None),
        "test-dir.tar.gz.age"
    );
}

#[test]
fn decrypt_file_name_strips_the_last_extension() {
    assert_eq!(
        compute_output_name("plain.txt.age", &Action::DecryptFile, None),
        "plain.txt"
    );
}

#[test]
fn decrypt_dir_name_strips_the_directory_suffix() {
    assert_eq!(
        compute_output_name("tests/test-dir.tar.gz.age", &Action::DecryptDir, None),
        "test-dir"
    );
}

#[test]
fn output_name_never_keeps_the_target_directory() {
    assert_eq!(
        compute_output_name("/home/user/docs/plain.txt", &Action::EncryptFile, None),
        "plain.txt.age"
    );
    assert_eq!(
        compute_output_name("a/b/c/test-dir/", &Action::EncryptDir, None),
        "test-dir.tar.gz.age"
    );
}

#[test]
fn timestamp_is_made_filename_safe() {
    assert_eq!(
        compute_output_name(
            "plain.txt",
            &Action::EncryptFile,
            Some("2021-01-01T10:11:12-04:00")
        ),
        "plain.txt__bottled_2021-01-01T10_11_12-04_00.age"
    );
}

#[test]
fn determined_name_weaves_the_timestamp_between_name_and_suffix() {
    let name = determine_output_file_name("plain.txt", &Action::EncryptFile, true);
    assert!(name.starts_with("plain.txt__bottled_"));
    assert!(name.ends_with(".age"));
    assert!(!name.contains(':'));
}

#[test]
fn timestampless_name_matches_the_computed_name() {
    assert_eq!(
        determine_output_file_name("plain.txt", &Action::EncryptFile, false),
        compute_output_name("plain.txt", &Action::EncryptFile, None)
    );
}

#[test]
fn temp_tar_path_sits_next_to_the_target() {
    assert_eq!(
        compose_path_for_temp_tar_file("tests/test-files/test-dir", "test-dir.tar.gz.age"),
        "tests/test-files/_tarfile_created_by_bottle_for_test-dir_tar_gz_age.tar"
    );
}

#[test]
fn base_name_presence_is_detected() {
    assert!(has_base_name("plain.txt"));
    assert!(has_base_name("dir/sub/"));
    assert!(!has_base_name("/"));
    assert!(!has_base_name(""));
}

#[test]
fn naming_round_trips_for_files_and_directories() {
    let encrypted = compute_output_name("plain.txt", &Action::EncryptFile, None);
    assert_eq!(
        compute_output_name(&encrypted, &Action::DecryptFile, None),
        "plain.txt"
    );

    let bottled = compute_output_name("test-dir", &Action::EncryptDir, None);
    assert_eq!(
        compute_output_name(&bottled, &Action::DecryptDir, None),
        "test-dir"
    );
}

#[test]
fn decrypt_names_ignore_the_timestamp_flag() {
    assert_eq!(
        determine_output_file_name("plain.txt.age", &Action::DecryptFile, true),
        "plain.txt"
    );
    assert_eq!(
        determine_output_file_name("test-dir.tar.gz.age", &Action::DecryptDir, true),
        "test-dir"
    );
}
