use bottle::resolve;
use bottle::resolve_action;
use bottle::Action;
use bottle::BottleError;

#[test]
fn resolves_each_of_the_four_actions() {
    assert_eq!(resolve_action(false, "photo.jpg"), Action::EncryptFile);
    assert_eq!(resolve_action(false, "photo.jpg.age"), Action::DecryptFile);
    assert_eq!(resolve_action(false, "backup.tar.gz.age"), Action::DecryptDir);
    assert_eq!(resolve_action(true, "my_folder/"), Action::EncryptDir);
}

#[test]
fn resolution_is_stable() {
    assert_eq!(
        resolve_action(false, "photo.jpg.age"),
        resolve_action(false, "photo.jpg.age")
    );
}

#[test]
fn a_missing_target_is_not_found_before_classification() {
    assert_eq!(resolve(false, false, "gone.txt"), Err(BottleError::NotFound));
    assert_eq!(resolve(true, false, "here.txt"), Ok(Action::EncryptFile));
}

#[test]
fn a_file_without_extension_is_encrypted() {
    assert_eq!(resolve_action(false, "README"), Action::EncryptFile);
}

#[test]
fn a_hidden_age_file_without_a_stem_is_encrypted() {
    assert_eq!(resolve_action(false, ".age"), Action::EncryptFile);
    assert_eq!(resolve_action(false, "docs/.age"), Action::EncryptFile);
}

#[test]
fn a_directory_is_encrypted_whatever_its_name() {
    assert_eq!(resolve_action(true, "folder.age"), Action::EncryptDir);
    assert_eq!(resolve_action(true, "folder.tar.gz.age"), Action::EncryptDir);
}
