use linebot_rs::validation::ReplyTokenValidator;
use linebot_rs::validation::SensitiveDataMasker;
use linebot_rs::validation::TextValidator;
use linebot_rs::validation::UserIdValidator;
use linebot_rs::validation::ValidationError;

#[test]
fn test_text_validator_valid() {
    let validator = TextValidator::new();
    assert!(validator.validate("Hello World").is_ok());
    assert!(validator.validate("你好世界").is_ok());
    assert!(validator.validate("").is_ok());
}

#[test]
fn test_text_validator_too_long() {
    let validator = TextValidator::new().max_length(5);
    let result = validator.validate("Hello World");
    assert!(matches!(result, Err(ValidationError::TooLong { .. })));
}

#[test]
fn test_text_validator_forbidden_word() {
    let validator = TextValidator::new();
    let result = validator.validate("This is spam content");
    assert_eq!(result, Err(ValidationError::Forbidden));
}

#[test]
fn test_text_validator_control_characters() {
    let validator = TextValidator::new();
    let result = validator.validate("Hello\x00World");
    assert_eq!(result, Err(ValidationError::InvalidCharacters));
}

#[test]
fn text_validator_too_short() {
    let validator = TextValidator::new().min_length(5);
    let result = validator.validate("hi");
    assert_eq!(result, Err(ValidationError::TooShort { min_length: 5, actual: 2 }));
}

#[test]
fn text_validator_rejects_empty_when_configured() {
    let validator = TextValidator::new().allow_empty(false);
    assert_eq!(validator.validate(""), Err(ValidationError::Empty));
}

#[test]
fn text_validator_forbidden_word_is_case_insensitive() {
    let validator = TextValidator::new();
    assert_eq!(validator.validate("SPAM!"), Err(ValidationError::Forbidden));
}

#[test]
fn text_validator_added_word_matches_lowercased() {
    let validator = TextValidator::new().add_forbidden_word("Scam");
    assert_eq!(validator.validate("a scam offer"), Err(ValidationError::Forbidden));
    assert_eq!(validator.validate("A SCAM OFFER"), Err(ValidationError::Forbidden));
}

#[test]
fn text_validator_exact_too_long_fields() {
    let validator = TextValidator::new().max_length(3);
    assert_eq!(
        validator.validate("word"),
        Err(ValidationError::TooLong { max_length: 3, actual: 4 })
    );
}

#[test]
fn text_validator_allows_newline_and_tab() {
    let validator = TextValidator::new();
    assert!(validator.validate("a\nb\tc\r").is_ok());
}

#[test]
fn test_user_id_validator_valid() {
    let valid_user_id = "U1234567890abcdef1234567890abcdef";
    assert!(UserIdValidator::validate(valid_user_id).is_ok());
}

#[test]
fn test_user_id_validator_invalid_length() {
    assert!(UserIdValidator::validate("U123").is_err());
    assert!(UserIdValidator::validate("").is_err());
}

#[test]
fn test_user_id_validator_invalid_format() {
    assert!(UserIdValidator::validate("X1234567890abcdef1234567890abcdef").is_err());
    assert!(UserIdValidator::validate("U123456789gabcdef1234567890abcdef").is_err());
}

#[test]
fn user_id_validator_exact_errors() {
    assert_eq!(UserIdValidator::validate(""), Err(ValidationError::Empty));
    assert_eq!(UserIdValidator::validate("U123"), Err(ValidationError::InvalidCharacters));
}

#[test]
fn test_reply_token_validator() {
    assert!(ReplyTokenValidator::validate("valid_reply_token_123").is_ok());
    assert!(ReplyTokenValidator::validate("").is_err());
    assert!(ReplyTokenValidator::validate("abc").is_err());
    assert!(ReplyTokenValidator::validate("invalid token with spaces").is_err());
}

#[test]
fn reply_token_validator_exact_errors() {
    assert_eq!(ReplyTokenValidator::validate(""), Err(ValidationError::Empty));
    assert_eq!(
        ReplyTokenValidator::validate("abc"),
        Err(ValidationError::TooLong { max_length: 100, actual: 3 })
    );
    assert_eq!(
        ReplyTokenValidator::validate("invalid token with spaces"),
        Err(ValidationError::InvalidCharacters)
    );
}

#[test]
fn test_sensitive_data_masker() {
    assert_eq!(
        SensitiveDataMasker::mask_channel_token("1234567890abcdef"),
        "1234...****"
    );
    assert_eq!(
        SensitiveDataMasker::mask_user_id("U1234567890abcdef1234567890abcdef"),
        "U12...def"
    );
    assert_eq!(
        SensitiveDataMasker::mask_email("test@example.com"),
        "t***@example.com"
    );
    assert_eq!(SensitiveDataMasker::mask_phone("0912345678"), "09***78");
}

#[test]
fn masker_short_values_fully_masked() {
    assert_eq!(SensitiveDataMasker::mask_channel_token("secret"), "******");
    assert_eq!(SensitiveDataMasker::mask_user_id("U12345"), "******");
    assert_eq!(SensitiveDataMasker::mask_phone("123"), "***");
    assert_eq!(SensitiveDataMasker::mask_email("not-an-email"), "************");
}

#[test]
fn masker_empty_values() {
    assert_eq!(SensitiveDataMasker::mask_channel_token(""), "");
    assert_eq!(SensitiveDataMasker::mask_user_id(""), "");
    assert_eq!(SensitiveDataMasker::mask_phone(""), "");
    assert_eq!(SensitiveDataMasker::mask_email(""), "");
}

#[test]
fn masker_short_email_local_part() {
    assert_eq!(SensitiveDataMasker::mask_email("ab@x.com"), "*@@x.com");
}
