use mini_docker::header::authorization_header;
use mini_docker::manifest::RegistryError;

#[test]
fn authorization_header_holds_the_bearer_token() {
    let v = authorization_header("eyJhbGciOi.payload.sig").unwrap();
    assert_eq!(v, "Bearer eyJhbGciOi.payload.sig");
    assert_eq!(v.as_bytes(), b"Bearer eyJhbGciOi.payload.sig");
}

#[test]
fn authorization_header_accepts_tab_and_non_ascii() {
    assert!(authorization_header("a\tb").is_ok());
    let v = authorization_header("tökén").unwrap();
    assert_eq!(v.as_bytes(), "Bearer tökén".as_bytes());
    assert!(authorization_header("").is_ok());
}

#[test]
fn authorization_header_rejects_control_characters() {
    for token in ["line\nbreak", "cr\r", "nul\0", "del\u{7f}", "\u{1f}"] {
        match authorization_header(token) {
            Err(RegistryError::InvalidHeaderValue) => {}
            other => panic!("{token:?} gave {other:?}"),
        }
    }
}

#[test]
fn invalid_header_value_message() {
    assert_eq!(RegistryError::InvalidHeaderValue.message(), "failed to parse header value");
}
