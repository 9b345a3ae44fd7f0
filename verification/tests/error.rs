use tinycrypt::CryptographyError;

#[test]
fn description_of_each_error() {
    assert_eq!(
        CryptographyError::EncodingFailure.description(),
        "Failed to encode data"
    );
    assert_eq!(
        CryptographyError::DecodingFailure.description(),
        "Data not valid"
    );
    assert_eq!(
        CryptographyError::KeyGenerationFailure.description(),
        "Failed to create key from password"
    );
    assert_eq!(
        CryptographyError::IncorrectPassword.description(),
        "Given password was incorrect"
    );
}

#[test]
fn text_of_each_error_is_its_name_and_a_line_feed() {
    assert_eq!(
        CryptographyError::DecodingFailure.to_string(),
        "DecodingFailure\n"
    );
    assert_eq!(
        CryptographyError::EncodingFailure.to_string(),
        "EncodingFailure\n"
    );
    assert_eq!(
        CryptographyError::KeyGenerationFailure.to_string(),
        "KeyGenerationFailure\n"
    );
    assert_eq!(
        CryptographyError::IncorrectPassword.to_string(),
        "IncorrectPassword\n"
    );
}

#[test]
fn text_of_each_error_is_its_debug_form() {
    for error in [
        CryptographyError::DecodingFailure,
        CryptographyError::EncodingFailure,
        CryptographyError::KeyGenerationFailure,
        CryptographyError::IncorrectPassword,
    ] {
        assert_eq!(error.to_string(), format!("{:?}\n", error));
    }
}

#[test]
fn errors_are_told_apart() {
    assert_eq!(
        CryptographyError::IncorrectPassword,
        CryptographyError::IncorrectPassword
    );
    assert_ne!(
        CryptographyError::IncorrectPassword,
        CryptographyError::DecodingFailure
    );
    assert_ne!(
        CryptographyError::EncodingFailure,
        CryptographyError::KeyGenerationFailure
    );
    let copy = CryptographyError::KeyGenerationFailure.clone();
    assert_eq!(copy, CryptographyError::KeyGenerationFailure);
}
