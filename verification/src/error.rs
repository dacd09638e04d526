//! The failures that the library reports.

use crate::text::{decimal, decimal_of};
use vstd::prelude::*;

verus! {

/// A failure. Variants that carry the report of another component hold its
/// text.
#[derive(Debug, PartialEq, Eq)]
pub enum Error {
    /// An attribute that the operation needs is missing.
    RequiredAttributeMissing(String),
    /// A filter argument names an attribute but gives no expression.
    MissingValueForAttribute(String),
    /// More results came back than the one that was asked for.
    TooManyItems(usize),
    /// Fewer results came back than were asked for.
    NotEnoughItems(usize),
    /// The operation does not fit the kind of the attribute.
    UnsupportedOperation(String, &'static str),
    /// The service reported an error.
    UnknownServerAdminError(String),
    /// The request could not be sent or its answer not received.
    UnknownRequestError(String),
    /// The clock could not be read.
    UnknownTimeError(String),
    /// JSON data could not be written or read.
    JsonError(String),
    /// An SSH key could not be read or used.
    SshKeyError(String),
    /// The signing agent could not be reached or answered wrongly.
    SshAgentError(String),
    /// A message could not be signed.
    SignatureError(String),
    /// A signature could not be encoded.
    EncodingError(String),
    /// A signature could not be written as Base64.
    Base64Error(String),
    /// A setting is missing from the environment.
    VarError(String),
    /// A public key is not of the form `algorithm key [comment]`.
    PublicKeyFormatError(String),
}

/// The classes of failure.
#[derive(Clone, Copy, Debug, PartialEq, Eq, Structural)]
pub enum ErrorKind {
    /// Connection settings are missing or invalid.
    Configuration,
    /// The network or HTTP exchange failed.
    Transport,
    /// The service answered with an error.
    Server,
    /// The caller or the service broke the protocol.
    ProtocolViolation,
    /// Signing failed.
    Signing,
    /// A signature or a message could not be encoded.
    Encoding,
}

impl Error {
    /// Whether the failure says that `operation` does not fit the attribute
    /// `name`.
    pub open spec fn is_unsupported(&self, name: Seq<char>, operation: Seq<char>) -> bool {
        match self {
            Error::UnsupportedOperation(attribute, refused) => attribute@ == name && refused@
                == operation,
            _ => false,
        }
    }

    /// The class that the failure belongs to.
    pub open spec fn kind_spec(&self) -> ErrorKind {
        match self {
            Error::RequiredAttributeMissing(_) => ErrorKind::ProtocolViolation,
            Error::MissingValueForAttribute(_) => ErrorKind::ProtocolViolation,
            Error::TooManyItems(_) => ErrorKind::ProtocolViolation,
            Error::NotEnoughItems(_) => ErrorKind::ProtocolViolation,
            Error::UnsupportedOperation(_, _) => ErrorKind::ProtocolViolation,
            Error::UnknownServerAdminError(_) => ErrorKind::Server,
            Error::UnknownRequestError(_) => ErrorKind::Transport,
            Error::UnknownTimeError(_) => ErrorKind::Configuration,
            Error::JsonError(_) => ErrorKind::Encoding,
            Error::SshKeyError(_) => ErrorKind::Configuration,
            Error::SshAgentError(_) => ErrorKind::Signing,
            Error::SignatureError(_) => ErrorKind::Signing,
            Error::EncodingError(_) => ErrorKind::Encoding,
            Error::Base64Error(_) => ErrorKind::Encoding,
            Error::VarError(_) => ErrorKind::Configuration,
            Error::PublicKeyFormatError(_) => ErrorKind::Encoding,
        }
    }

    /// The class that the failure belongs to.
    pub fn kind(&self) -> (kind: ErrorKind)
        ensures
            kind == self.kind_spec(),
    {
        match self {
            Error::RequiredAttributeMissing(_) => ErrorKind::ProtocolViolation,
            Error::MissingValueForAttribute(_) => ErrorKind::ProtocolViolation,
            Error::TooManyItems(_) => ErrorKind::ProtocolViolation,
            Error::NotEnoughItems(_) => ErrorKind::ProtocolViolation,
            Error::UnsupportedOperation(_, _) => ErrorKind::ProtocolViolation,
            Error::UnknownServerAdminError(_) => ErrorKind::Server,
            Error::UnknownRequestError(_) => ErrorKind::Transport,
            Error::UnknownTimeError(_) => ErrorKind::Configuration,
            Error::JsonError(_) => ErrorKind::Encoding,
            Error::SshKeyError(_) => ErrorKind::Configuration,
            Error::SshAgentError(_) => ErrorKind::Signing,
            Error::SignatureError(_) => ErrorKind::Signing,
            Error::EncodingError(_) => ErrorKind::Encoding,
            Error::Base64Error(_) => ErrorKind::Encoding,
            Error::VarError(_) => ErrorKind::Configuration,
            Error::PublicKeyFormatError(_) => ErrorKind::Encoding,
        }
    }

    /// What the failure says, in words.
    pub open spec fn message_spec(&self) -> Seq<char> {
        match self {
            Error::TooManyItems(count) => "Response expected one result, got "@ + decimal_of(
                *count as nat,
            ),
            Error::NotEnoughItems(count) => "Got not enough items, expected at least "@
                + decimal_of(*count as nat),
            Error::UnsupportedOperation(attribute, operation) => "Unsupported operation on attribute "@
                + attribute@ + ": "@ + operation@,
            Error::RequiredAttributeMissing(text) => "Missing required attribute: "@ + text@,
            Error::MissingValueForAttribute(text) => "No value was provided for attribute: "@ + text@,
            Error::UnknownServerAdminError(text) => "Got error from serveradmin: "@ + text@,
            Error::UnknownRequestError(text) => "Unknown error while sending a request: "@ + text@,
            Error::UnknownTimeError(text) => "Unknown error while getting time: "@ + text@,
            Error::JsonError(text) => "Error while handling JSON data: "@ + text@,
            Error::SshKeyError(text) => "Error while handling SSH key: "@ + text@,
            Error::SshAgentError(text) => "Error while communicating with ssh agent: "@ + text@,
            Error::SignatureError(text) => "Error while signing message: "@ + text@,
            Error::EncodingError(text) => "Error while encoding message: "@ + text@,
            Error::Base64Error(text) => "Error while encoding message: "@ + text@,
            Error::VarError(text) => "Error while getting environment variable: "@ + text@,
            Error::PublicKeyFormatError(text) => "Unable to extract public key from string: "@ + text@,
        }
    }

    /// What the failure says, in words.
    pub fn message(&self) -> (text: String)
        ensures
            text@ == self.message_spec(),
    {
        match self {
            Error::TooManyItems(count) => "Response expected one result, got ".to_owned().concat(
                decimal(*count as u64).as_str(),
            ),
            Error::NotEnoughItems(count) => "Got not enough items, expected at least ".to_owned().concat(
                decimal(*count as u64).as_str(),
            ),
            Error::UnsupportedOperation(attribute, operation) => "Unsupported operation on attribute ".to_owned().concat(
                attribute.as_str(),
            ).concat(": ").concat(operation),
            Error::RequiredAttributeMissing(text) => "Missing required attribute: ".to_owned().concat(text.as_str()),
            Error::MissingValueForAttribute(text) => "No value was provided for attribute: ".to_owned().concat(text.as_str()),
            Error::UnknownServerAdminError(text) => "Got error from serveradmin: ".to_owned().concat(text.as_str()),
            Error::UnknownRequestError(text) => "Unknown error while sending a request: ".to_owned().concat(text.as_str()),
            Error::UnknownTimeError(text) => "Unknown error while getting time: ".to_owned().concat(text.as_str()),
            Error::JsonError(text) => "Error while handling JSON data: ".to_owned().concat(text.as_str()),
            Error::SshKeyError(text) => "Error while handling SSH key: ".to_owned().concat(text.as_str()),
            Error::SshAgentError(text) => "Error while communicating with ssh agent: ".to_owned().concat(text.as_str()),
            Error::SignatureError(text) => "Error while signing message: ".to_owned().concat(text.as_str()),
            Error::EncodingError(text) => "Error while encoding message: ".to_owned().concat(text.as_str()),
            Error::Base64Error(text) => "Error while encoding message: ".to_owned().concat(text.as_str()),
            Error::VarError(text) => "Error while getting environment variable: ".to_owned().concat(text.as_str()),
            Error::PublicKeyFormatError(text) => "Unable to extract public key from string: ".to_owned().concat(text.as_str()),
        }
    }
}

/// The result of an operation that may fail.
pub type Result<T> = std::result::Result<T, Error>;

} // verus!
