use win_security_identifier::token_error::{check_fill, check_open, check_size_query, TokenError};

#[test]
fn token_errors_in_words() {
    assert_eq!(
        TokenError::OpenTokenFailed(5).to_string(),
        "OpenProcessToken failed (error 5)"
    );
    assert_eq!(
        TokenError::GetTokenSizeFailed.to_string(),
        "Failed to determine TokenUser buffer size"
    );
    assert_eq!(
        TokenError::BufferTooSmall.to_string(),
        "Static buffer too small for TokenUser"
    );
    assert_eq!(
        TokenError::GetTokenInfoFailed(4294967295).to_string(),
        "GetTokenInformation failed (error 4294967295)"
    );
    assert_eq!(
        TokenError::GetTokenInfoFailed(0).to_string(),
        "GetTokenInformation failed (error 0)"
    );
}

#[test]
fn checks_after_each_call() {
    assert_eq!(check_open(1, 0), Ok(()));
    assert_eq!(check_open(0, 5), Err(TokenError::OpenTokenFailed(5)));
    assert_eq!(check_size_query(0), Ok(()));
    assert_eq!(check_size_query(1), Err(TokenError::GetTokenSizeFailed));
    assert_eq!(check_fill(1, 122), Ok(()));
    assert_eq!(check_fill(0, 122), Err(TokenError::GetTokenInfoFailed(122)));
}
