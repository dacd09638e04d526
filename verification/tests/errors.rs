use adminapi::error::{Error, ErrorKind};

#[test]
fn every_error_has_its_kind() {
    let text = || "x".to_string();
    let table = [
        (Error::RequiredAttributeMissing(text()), ErrorKind::ProtocolViolation),
        (Error::MissingValueForAttribute(text()), ErrorKind::ProtocolViolation),
        (Error::TooManyItems(2), ErrorKind::ProtocolViolation),
        (Error::NotEnoughItems(1), ErrorKind::ProtocolViolation),
        (Error::UnsupportedOperation(text(), "set"), ErrorKind::ProtocolViolation),
        (Error::UnknownServerAdminError(text()), ErrorKind::Server),
        (Error::UnknownRequestError(text()), ErrorKind::Transport),
        (Error::UnknownTimeError(text()), ErrorKind::Configuration),
        (Error::JsonError(text()), ErrorKind::Encoding),
        (Error::SshKeyError(text()), ErrorKind::Configuration),
        (Error::SshAgentError(text()), ErrorKind::Signing),
        (Error::SignatureError(text()), ErrorKind::Signing),
        (Error::EncodingError(text()), ErrorKind::Encoding),
        (Error::Base64Error(text()), ErrorKind::Encoding),
        (Error::VarError(text()), ErrorKind::Configuration),
        (Error::PublicKeyFormatError(text()), ErrorKind::Encoding),
    ];
    for (error, kind) in table {
        assert_eq!(error.kind(), kind, "{error:?}");
    }
}

#[test]
fn every_error_has_its_message() {
    let table = [
        (
            Error::RequiredAttributeMissing("hostname".to_string()),
            "Missing required attribute: hostname",
        ),
        (
            Error::MissingValueForAttribute("state".to_string()),
            "No value was provided for attribute: state",
        ),
        (Error::TooManyItems(12), "Response expected one result, got 12"),
        (Error::NotEnoughItems(1), "Got not enough items, expected at least 1"),
        (
            Error::UnsupportedOperation("tags".to_string(), "set"),
            "Unsupported operation on attribute tags: set",
        ),
        (
            Error::UnknownServerAdminError("denied".to_string()),
            "Got error from serveradmin: denied",
        ),
        (
            Error::UnknownRequestError("timeout".to_string()),
            "Unknown error while sending a request: timeout",
        ),
        (
            Error::UnknownTimeError("backwards".to_string()),
            "Unknown error while getting time: backwards",
        ),
        (
            Error::JsonError("eof".to_string()),
            "Error while handling JSON data: eof",
        ),
        (
            Error::SshKeyError("bad".to_string()),
            "Error while handling SSH key: bad",
        ),
        (
            Error::SshAgentError("gone".to_string()),
            "Error while communicating with ssh agent: gone",
        ),
        (
            Error::SignatureError("no".to_string()),
            "Error while signing message: no",
        ),
        (
            Error::EncodingError("len".to_string()),
            "Error while encoding message: len",
        ),
        (
            Error::Base64Error("pad".to_string()),
            "Error while encoding message: pad",
        ),
        (
            Error::VarError("unset".to_string()),
            "Error while getting environment variable: unset",
        ),
        (
            Error::PublicKeyFormatError("junk".to_string()),
            "Unable to extract public key from string: junk",
        ),
    ];
    for (error, message) in table {
        assert_eq!(error.message(), message);
    }
}

#[test]
fn counts_are_written_in_decimal() {
    assert_eq!(
        Error::TooManyItems(0).message(),
        "Response expected one result, got 0"
    );
    assert_eq!(
        Error::TooManyItems(1000000007).message(),
        "Response expected one result, got 1000000007"
    );
    assert_eq!(
        Error::NotEnoughItems(usize::MAX).message(),
        format!("Got not enough items, expected at least {}", usize::MAX)
    );
}
