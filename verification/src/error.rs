//! What can go wrong: in the configuration, on the wire, and in a reply.

use crate::json::{member, Json, JsonValue};
use vstd::prelude::*;

verus! {

/// A configuration that cannot be used. Fatal where the engine is built.
#[derive(Debug, Clone, Copy, PartialEq, Eq, Structural)]
pub enum ConfigError {
    /// Nothing is left of the private key once white space is removed.
    EmptyPrivateKey,
    /// The key material is neither a bracketed byte array nor base58 text.
    MalformedKey,
    /// The decoded key material is not a signing key with its public half.
    InvalidKeypair,
    /// The target address does not have the length of an address.
    MintLength,
    /// The target address is not base58 text.
    MintFormat,
    /// The endpoint URL names neither `http` nor `https`.
    UrlScheme,
    /// The endpoint URL is too short to name a host.
    UrlTooShort,
}

impl ConfigError {
    /// The cause, in words.
    pub open spec fn cause(self) -> Seq<char> {
        match self {
            ConfigError::EmptyPrivateKey => "Private key cannot be empty"@,
            ConfigError::MalformedKey => "Invalid private key encoding"@,
            ConfigError::InvalidKeypair => "Invalid keypair bytes"@,
            ConfigError::MintLength => "Invalid mint address length"@,
            ConfigError::MintFormat => "Invalid mint address format"@,
            ConfigError::UrlScheme => "RPC URL must start with http:// or https://"@,
            ConfigError::UrlTooShort => "RPC URL too short"@,
        }
    }

    /// The cause, in words.
    pub fn message(&self) -> (text: String)
        ensures
            text@ == self.cause(),
    {
        match self {
            ConfigError::EmptyPrivateKey => "Private key cannot be empty".to_owned(),
            ConfigError::MalformedKey => "Invalid private key encoding".to_owned(),
            ConfigError::InvalidKeypair => "Invalid keypair bytes".to_owned(),
            ConfigError::MintLength => "Invalid mint address length".to_owned(),
            ConfigError::MintFormat => "Invalid mint address format".to_owned(),
            ConfigError::UrlScheme => "RPC URL must start with http:// or https://".to_owned(),
            ConfigError::UrlTooShort => "RPC URL too short".to_owned(),
        }
    }
}

/// A reply that does not say what a reply has to say.
#[derive(Debug, PartialEq, Eq)]
pub enum ProtocolError {
    /// The body is not JSON.
    Unparseable,
    /// The endpoint reports an error, which is carried as it came.
    Rejected(Json),
    /// The reply holds no `result` with a `signature` that is a string.
    MissingSignature,
}

/// What a `ProtocolError` says.
pub ghost enum ProtocolFailure {
    Unparseable,
    Rejected(JsonValue),
    MissingSignature,
}

impl View for ProtocolError {
    type V = ProtocolFailure;

    open spec fn view(&self) -> ProtocolFailure {
        match self {
            ProtocolError::Unparseable => ProtocolFailure::Unparseable,
            ProtocolError::Rejected(error) => ProtocolFailure::Rejected(error@),
            ProtocolError::MissingSignature => ProtocolFailure::MissingSignature,
        }
    }
}

/// Why a submission failed.
#[derive(Debug, PartialEq, Eq)]
pub enum SubmitError {
    /// Nothing came back, or a status other than success; the cause in words.
    Transport(String),
    /// Something came back that is no answer.
    Protocol(ProtocolError),
}

/// What a `SubmitError` says.
pub ghost enum SubmitFailure {
    Transport(Seq<char>),
    Protocol(ProtocolFailure),
}

impl View for SubmitError {
    type V = SubmitFailure;

    open spec fn view(&self) -> SubmitFailure {
        match self {
            SubmitError::Transport(cause) => SubmitFailure::Transport(cause@),
            SubmitError::Protocol(error) => SubmitFailure::Protocol(error@),
        }
    }
}

/// The words of a reported error: the error itself where it is a string, its
/// `message` where it is an object that has one as a string, else nothing.
pub open spec fn error_text(error: JsonValue) -> Seq<char> {
    match error {
        JsonValue::Text(text) => text,
        _ => match member(error, "message"@) {
            Some(JsonValue::Text(text)) => text,
            _ => Seq::empty(),
        },
    }
}

impl ProtocolFailure {
    /// The cause, in words.
    pub open spec fn cause(self) -> Seq<char> {
        match self {
            ProtocolFailure::Unparseable => "Response is not valid JSON"@,
            ProtocolFailure::Rejected(error) => "Transaction failed: "@ + error_text(error),
            ProtocolFailure::MissingSignature => "Invalid response format"@,
        }
    }
}

impl SubmitFailure {
    /// The cause, in words.
    pub open spec fn cause(self) -> Seq<char> {
        match self {
            SubmitFailure::Transport(cause) => cause,
            SubmitFailure::Protocol(failure) => failure.cause(),
        }
    }
}

impl ProtocolError {
    /// The cause, in words.
    pub fn message(&self) -> (text: String)
        ensures
            text@ == self@.cause(),
    {
        match self {
            ProtocolError::Unparseable => "Response is not valid JSON".to_owned(),
            ProtocolError::Rejected(error) => {
                let mut text = "Transaction failed: ".to_owned();
                match error.as_str() {
                    Some(words) => {
                        text.append(words);
                    },
                    None => {
                        match error.get("message") {
                            Some(inner) => match inner.as_str() {
                                Some(words) => {
                                    text.append(words);
                                },
                                None => {},
                            },
                            None => {},
                        }
                    },
                }
                proof {
                    assert(text@ =~= self@.cause());
                }
                text
            },
            ProtocolError::MissingSignature => "Invalid response format".to_owned(),
        }
    }
}

impl SubmitError {
    /// The cause, in words.
    pub fn message(&self) -> (text: String)
        ensures
            text@ == self@.cause(),
    {
        match self {
            SubmitError::Transport(cause) => cause.clone(),
            SubmitError::Protocol(error) => error.message(),
        }
    }
}

} // verus!
