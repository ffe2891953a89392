use bottle::authorize_write;
use bottle::BottleError;

#[test]
fn an_existing_output_without_force_would_overwrite() {
    assert_eq!(
        authorize_write(true, false, "plain.txt.age"),
        Err(BottleError::WouldOverwrite("plain.txt.age".to_string()))
    );
}

#[test]
fn the_force_flag_allows_replacing_an_existing_output() {
    assert_eq!(authorize_write(true, true, "plain.txt.age"), Ok(()));
}

#[test]
fn an_absent_output_needs_no_force() {
    assert_eq!(authorize_write(false, false, "plain.txt.age"), Ok(()));
    assert_eq!(authorize_write(false, true, "plain.txt.age"), Ok(()));
}

#[test]
fn errors_describe_themselves() {
    assert_eq!(
        BottleError::NotFound.describe(),
        "target path does not exist"
    );
    assert_eq!(
        BottleError::WouldOverwrite("plain.txt.age".to_string()).describe(),
        "would overwrite existing plain.txt.age"
    );
    assert_eq!(
        BottleError::DecryptionFailed.describe(),
        "ciphertext is invalid or was made for another identity"
    );
}
