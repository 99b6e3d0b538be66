//! The error taxonomy and its numeric code space.

use travelmux::error::{Error, ErrorType};

#[test]
fn error_types_have_stable_codes() {
    assert_eq!(ErrorType::User.code(), 400);
    assert_eq!(ErrorType::Server.code(), 500);
    assert_eq!(ErrorType::NoCoverageForArea.code(), 1701);
}

#[test]
fn error_codes_round_trip() {
    for t in [ErrorType::User, ErrorType::Server, ErrorType::NoCoverageForArea] {
        assert_eq!(ErrorType::from_code(t.code()), Some(t));
    }
    assert_eq!(ErrorType::from_code(404), None);
}

#[test]
fn errors_carry_their_type_and_message() {
    let err = Error::user("mode is required".to_string());
    assert_eq!(err.error_type, ErrorType::User);
    assert_eq!(err.message, "mode is required");

    let err = Error::server("upstream failed".to_string());
    assert_eq!(err.error_type, ErrorType::Server);

    let recoded = Error::user("not here".to_string()).error_type(ErrorType::NoCoverageForArea);
    assert_eq!(recoded.error_type, ErrorType::NoCoverageForArea);
    assert_eq!(recoded.message, "not here");
}
