use pumpfun_bundler_stealth::error::{ProtocolError, SubmitError};
use pumpfun_bundler_stealth::json::{find_member, FieldMap, Json};
use pumpfun_bundler_stealth::submit::{interpret_reply, read_body, read_signature, TransportReply};

fn text(value: &str) -> Json {
    Json::Text(value.to_string())
}

fn object(members: Vec<(&str, Json)>) -> Json {
    Json::Object(members.into_iter().map(|(name, value)| (name.to_string(), value)).collect())
}

fn answered(body: &str) -> TransportReply {
    TransportReply::Answered { success: true, status: "200 OK".to_string(), body: body.to_string() }
}

#[test]
fn field_map_sets_and_finds() {
    let mut fields = FieldMap::new();
    assert!(!fields.contains_key("a"));
    assert_eq!(fields.get("a"), None);
    fields.insert("a".to_string(), Json::Unsigned(1));
    fields.insert("b".to_string(), Json::Bool(false));
    assert!(fields.contains_key("a"));
    assert_eq!(fields.get("a"), Some(&Json::Unsigned(1)));
    assert_eq!(fields.get("b"), Some(&Json::Bool(false)));
    assert_eq!(fields.get("A"), None);
    assert_eq!(fields.get(""), None);
}

#[test]
fn field_map_insert_replaces() {
    let mut fields = FieldMap::new();
    fields.insert("a".to_string(), Json::Unsigned(1));
    fields.insert("b".to_string(), Json::Unsigned(2));
    fields.insert("a".to_string(), Json::Unsigned(3));
    assert_eq!(fields.get("a"), Some(&Json::Unsigned(3)));
    assert_eq!(fields.get("b"), Some(&Json::Unsigned(2)));
    assert_eq!(fields.entries.len(), 2);
}

#[test]
fn field_map_remove_takes_every_entry_of_the_name() {
    let mut fields = FieldMap {
        entries: vec![
            ("a".to_string(), Json::Unsigned(1)),
            ("b".to_string(), Json::Unsigned(2)),
            ("a".to_string(), Json::Unsigned(3)),
            ("c".to_string(), Json::Unsigned(4)),
            ("a".to_string(), Json::Unsigned(5)),
        ],
    };
    assert_eq!(fields.get("a"), Some(&Json::Unsigned(5)));
    fields.remove("a");
    assert_eq!(fields.get("a"), None);
    assert_eq!(
        fields.entries,
        vec![("b".to_string(), Json::Unsigned(2)), ("c".to_string(), Json::Unsigned(4))]
    );
    fields.remove("missing");
    assert_eq!(fields.entries.len(), 2);
}

#[test]
fn field_map_becomes_an_object() {
    let mut fields = FieldMap::new();
    fields.insert("a".to_string(), Json::Unsigned(1));
    fields.insert("b".to_string(), text("x"));
    assert_eq!(fields.into_json(), object(vec![("a", Json::Unsigned(1)), ("b", text("x"))]));
}

#[test]
fn the_last_member_of_a_name_counts() {
    let members = vec![
        ("a".to_string(), Json::Unsigned(1)),
        ("b".to_string(), Json::Unsigned(2)),
        ("a".to_string(), Json::Unsigned(3)),
    ];
    assert_eq!(find_member(&members, "a"), Some(2));
    assert_eq!(find_member(&members, "b"), Some(1));
    assert_eq!(find_member(&members, "c"), None);
    let value = Json::Object(members);
    assert_eq!(value.get("a"), Some(&Json::Unsigned(3)));
    assert_eq!(value.get("c"), None);
}

#[test]
fn only_objects_have_members_and_only_strings_text() {
    assert_eq!(text("x").get("x"), None);
    assert_eq!(Json::Array(vec![text("x")]).get("0"), None);
    assert_eq!(Json::Null.get(""), None);
    assert_eq!(text("x").as_str(), Some("x"));
    assert_eq!(Json::Unsigned(1).as_str(), None);
    assert_eq!(Json::Decimal("1.5".to_string()).as_str(), None);
    assert_eq!(object(vec![]).as_str(), None);
}

#[test]
fn take_member_hands_the_member_over() {
    let mut value = object(vec![("a", Json::Unsigned(1)), ("b", text("x"))]);
    assert_eq!(value.take_member("b"), Some(text("x")));
    assert_eq!(value.take_member("missing"), None);
    assert_eq!(value.get("a"), Some(&Json::Unsigned(1)));
    let mut other = text("a");
    assert_eq!(other.take_member("a"), None);
    assert_eq!(other, text("a"));
}

#[test]
fn signature_is_read_from_the_result() {
    let document = object(vec![("result", object(vec![("signature", text("5Sig"))]))]);
    assert_eq!(read_signature(document), Ok("5Sig".to_string()));
}

#[test]
fn a_reported_error_goes_first() {
    let document = object(vec![
        ("result", object(vec![("signature", text("5Sig"))])),
        ("error", text("x")),
    ]);
    assert_eq!(read_signature(document), Err(ProtocolError::Rejected(text("x"))));
    let null_error = object(vec![("error", Json::Null)]);
    assert_eq!(read_signature(null_error), Err(ProtocolError::Rejected(Json::Null)));
}

#[test]
fn a_reply_without_signature_is_no_answer() {
    for document in [
        object(vec![]),
        object(vec![("result", Json::Null)]),
        object(vec![("result", text("5Sig"))]),
        object(vec![("result", object(vec![]))]),
        object(vec![("result", object(vec![("signature", Json::Unsigned(5))]))]),
        object(vec![("result", object(vec![("signature", Json::Null)]))]),
        object(vec![("result", object(vec![("Signature", text("5Sig"))]))]),
        object(vec![("signature", text("5Sig"))]),
        Json::Array(vec![]),
        text("5Sig"),
        Json::Null,
    ] {
        assert_eq!(read_signature(document), Err(ProtocolError::MissingSignature));
    }
}

#[test]
fn a_body_that_was_refused_is_unparseable() {
    assert_eq!(read_body(None), Err(SubmitError::Protocol(ProtocolError::Unparseable)));
    assert_eq!(
        read_body(Some(object(vec![]))),
        Err(SubmitError::Protocol(ProtocolError::MissingSignature))
    );
    assert_eq!(
        read_body(Some(object(vec![("result", object(vec![("signature", text("s"))]))]))),
        Ok("s".to_string())
    );
}

#[test]
fn reply_with_signature_is_read() {
    let reply = answered(r#"{"jsonrpc":"2.0","id":7,"result":{"signature":"5SigAbc"}}"#);
    assert_eq!(interpret_reply(reply), Ok("5SigAbc".to_string()));
}

#[test]
fn reply_with_error_is_a_protocol_error_carrying_it() {
    let outcome = interpret_reply(answered(r#"{"error":"x"}"#));
    assert_eq!(outcome, Err(SubmitError::Protocol(ProtocolError::Rejected(text("x")))));
    assert_eq!(outcome.unwrap_err().message(), "Transaction failed: x");
}

#[test]
fn reply_with_error_object_carries_all_of_it() {
    let outcome = interpret_reply(answered(
        r#"{"error":{"code":-32002,"message":"Blockhash not found","data":[1,-2,1.5,null,true]}}"#,
    ));
    let error = outcome.unwrap_err();
    match &error {
        SubmitError::Protocol(ProtocolError::Rejected(value)) => {
            assert_eq!(value.get("code"), Some(&Json::Signed(-32002)));
            assert_eq!(value.get("message"), Some(&text("Blockhash not found")));
            assert_eq!(
                value.get("data"),
                Some(&Json::Array(vec![
                    Json::Unsigned(1),
                    Json::Signed(-2),
                    Json::Decimal("1.5".to_string()),
                    Json::Null,
                    Json::Bool(true),
                ]))
            );
        }
        other => panic!("another error: {:?}", other),
    }
    assert_eq!(error.message(), "Transaction failed: Blockhash not found");
}

#[test]
fn reply_that_is_no_json_is_unparseable() {
    for body in ["", "not json", "{", r#"{"result":"#, "<html></html>"] {
        let outcome = interpret_reply(answered(body));
        assert_eq!(outcome, Err(SubmitError::Protocol(ProtocolError::Unparseable)));
    }
    assert_eq!(
        SubmitError::Protocol(ProtocolError::Unparseable).message(),
        "Response is not valid JSON"
    );
}

#[test]
fn reply_without_signature_is_invalid() {
    for body in ["{}", "[]", "null", "42", r#"{"result":{}}"#, r#"{"result":{"signature":7}}"#] {
        let outcome = interpret_reply(answered(body));
        assert_eq!(outcome, Err(SubmitError::Protocol(ProtocolError::MissingSignature)));
    }
    assert_eq!(
        SubmitError::Protocol(ProtocolError::MissingSignature).message(),
        "Invalid response format"
    );
}

#[test]
fn status_other_than_success_is_a_transport_error() {
    let reply = TransportReply::Answered {
        success: false,
        status: "500 Internal Server Error".to_string(),
        body: r#"{"result":{"signature":"5Sig"}}"#.to_string(),
    };
    let outcome = interpret_reply(reply);
    assert_eq!(
        outcome,
        Err(SubmitError::Transport("RPC request failed: 500 Internal Server Error".to_string()))
    );
    assert_eq!(
        outcome.unwrap_err().message(),
        "RPC request failed: 500 Internal Server Error"
    );
}

#[test]
fn no_answer_is_a_transport_error() {
    let reply = TransportReply::Failed { cause: "connection refused".to_string() };
    assert_eq!(
        interpret_reply(reply),
        Err(SubmitError::Transport("connection refused".to_string()))
    );
}

#[test]
fn error_messages_without_words() {
    assert_eq!(
        ProtocolError::Rejected(Json::Unsigned(5)).message(),
        "Transaction failed: "
    );
    assert_eq!(
        ProtocolError::Rejected(object(vec![("message", Json::Unsigned(5))])).message(),
        "Transaction failed: "
    );
    assert_eq!(
        ProtocolError::Rejected(object(vec![("message", text("no funds"))])).message(),
        "Transaction failed: no funds"
    );
}
