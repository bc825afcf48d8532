//! What came back from the endpoint, and what it means.

use crate::error::{ProtocolError, ProtocolFailure, SubmitError, SubmitFailure};
use crate::json::{member, parse_json, parsed_json, Json, JsonValue};
use vstd::prelude::*;

verus! {

/// What the transport hands back for one request.
#[derive(Debug, PartialEq, Eq)]
pub enum TransportReply {
    /// The endpoint answered.
    Answered {
        /// Whether the status is one of success.
        success: bool,
        /// The status, in words.
        status: String,
        body: String,
    },
    /// No answer came; the cause in words.
    Failed { cause: String },
}

/// What a reply's document says of the transaction: the error that it reports,
/// else the signature that it gives, else that there is none.
pub open spec fn signature_of(document: JsonValue) -> Result<Seq<char>, ProtocolFailure> {
    match member(document, "error"@) {
        Some(error) => Err(ProtocolFailure::Rejected(error)),
        None => match member(document, "result"@) {
            Some(result) => match member(result, "signature"@) {
                Some(JsonValue::Text(signature)) => Ok(signature),
                _ => Err(ProtocolFailure::MissingSignature),
            },
            None => Err(ProtocolFailure::MissingSignature),
        },
    }
}

/// What a body says, once the parser has spoken.
pub open spec fn body_outcome(parsed: Option<JsonValue>) -> Result<Seq<char>, SubmitFailure> {
    match parsed {
        None => Err(SubmitFailure::Protocol(ProtocolFailure::Unparseable)),
        Some(document) => match signature_of(document) {
            Ok(signature) => Ok(signature),
            Err(failure) => Err(SubmitFailure::Protocol(failure)),
        },
    }
}

/// The cause that is given for a status other than success.
pub open spec fn status_cause(status: Seq<char>) -> Seq<char> {
    "RPC request failed: "@ + status
}

/// What a reply means, given what the parser makes of its body.
pub open spec fn reply_outcome(
    success: bool,
    status: Seq<char>,
    parsed: Option<JsonValue>,
) -> Result<Seq<char>, SubmitFailure> {
    if !success {
        Err(SubmitFailure::Transport(status_cause(status)))
    } else {
        body_outcome(parsed)
    }
}

/// What a reply means: a transport error where nothing came back or the
/// status is not one of success, else what the body says.
pub open spec fn reply_meaning(reply: TransportReply) -> Result<Seq<char>, SubmitFailure> {
    match reply {
        TransportReply::Failed { cause } => Err(SubmitFailure::Transport(cause@)),
        TransportReply::Answered { success, status, body } => reply_outcome(
            success,
            status@,
            parsed_json(body@),
        ),
    }
}

/// A signature or an error, by what they say.
pub open spec fn outcome_view(outcome: Result<String, SubmitError>) -> Result<
    Seq<char>,
    SubmitFailure,
> {
    match outcome {
        Ok(signature) => Ok(signature@),
        Err(error) => Err(error@),
    }
}

/// Reads the signature out of a reply's document. A reported error goes
/// before everything else, whatever it holds.
pub fn read_signature(document: Json) -> (signature: Result<String, ProtocolError>)
    ensures
        match signature {
            Ok(text) => signature_of(document@) == Ok::<Seq<char>, ProtocolFailure>(text@),
            Err(error) => signature_of(document@) == Err::<Seq<char>, ProtocolFailure>(error@),
        },
{
    let mut document = document;
    match document.take_member("error") {
        Some(error) => Err(ProtocolError::Rejected(error)),
        None => match document.get("result") {
            Some(result) => match result.get("signature") {
                Some(value) => match value.as_str() {
                    Some(text) => Ok(text.to_owned()),
                    None => Err(ProtocolError::MissingSignature),
                },
                None => Err(ProtocolError::MissingSignature),
            },
            None => Err(ProtocolError::MissingSignature),
        },
    }
}

/// What a body means, once it was parsed or refused.
pub fn read_body(parsed: Option<Json>) -> (outcome: Result<String, SubmitError>)
    ensures
        outcome_view(outcome) == body_outcome(
            match parsed {
                Some(document) => Some(document@),
                None => None,
            },
        ),
{
    match parsed {
        None => Err(SubmitError::Protocol(ProtocolError::Unparseable)),
        Some(document) => match read_signature(document) {
            Ok(signature) => Ok(signature),
            Err(error) => Err(SubmitError::Protocol(error)),
        },
    }
}

/// Reads a reply: a transport error where nothing came back or the status is
/// not one of success, else what the body says.
pub fn interpret_reply(reply: TransportReply) -> (outcome: Result<String, SubmitError>)
    ensures
        outcome_view(outcome) == reply_meaning(reply),
{
    match reply {
        TransportReply::Failed { cause } => Err(SubmitError::Transport(cause)),
        TransportReply::Answered { success, status, body } => {
            if !success {
                let mut cause = "RPC request failed: ".to_owned();
                cause.append(status.as_str());
                Err(SubmitError::Transport(cause))
            } else {
                read_body(parse_json(body.as_str()))
            }
        },
    }
}

} // verus!
