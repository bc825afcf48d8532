use pumpfun_bundler_stealth::config::StealthConfig;
use pumpfun_bundler_stealth::intent::{json_integer, TransactionIntent};
use pumpfun_bundler_stealth::json::Json;
use pumpfun_bundler_stealth::stealth::{
    apply_random_headers, apply_variation, delay_with_jitter, encoding_at, language_at,
    rpc_payload_with_id, strip_cluster_markers, StealthEngine,
};
use reqwest::header::HeaderMap;
use std::collections::HashSet;

const IDENTITIES: [&str; 5] = [
    "Mozilla/5.0 (Windows NT 10.0; Win64; x64) AppleWebKit/537.36 (KHTML, like Gecko) Chrome/120.0.0.0 Safari/537.36",
    "Mozilla/5.0 (Macintosh; Intel Mac OS X 10_15_7) AppleWebKit/537.36 (KHTML, like Gecko) Chrome/120.0.0.0 Safari/537.36",
    "Mozilla/5.0 (X11; Linux x86_64) AppleWebKit/537.36 (KHTML, like Gecko) Chrome/120.0.0.0 Safari/537.36",
    "Mozilla/5.0 (Windows NT 10.0; Win64; x64; rv:109.0) Gecko/20100101 Firefox/121.0",
    "Mozilla/5.0 (Macintosh; Intel Mac OS X 10.15; rv:109.0) Gecko/20100101 Firefox/121.0",
];

fn profile(avoid: bool, rotate: bool, randomize: bool, delay: u64) -> StealthConfig {
    StealthConfig {
        randomize_headers: randomize,
        rotate_user_agents: rotate,
        use_proxy_rotation: false,
        delay_between_requests: delay,
        max_retries: 3,
        avoid_bubble_map: avoid,
        custom_headers: Vec::new(),
    }
}

fn header<'a>(headers: &'a HeaderMap, name: &str) -> Option<&'a str> {
    headers.get(name).map(|value| value.to_str().unwrap())
}

#[test]
fn amount_is_unchanged_without_cluster_avoidance() {
    let engine = StealthEngine::new(profile(false, true, true, 0));
    for amount in [0u64, 1, 99, 100, 101, 1_000_000, u64::MAX - 1, u64::MAX] {
        for _ in 0..50 {
            assert_eq!(engine.obfuscate_amount(amount), amount);
        }
    }
}

#[test]
fn amount_moves_by_a_hundred_at_most_and_never_below_one() {
    let engine = StealthEngine::new(profile(true, true, true, 0));
    for amount in [0u64, 1, 2, 50, 99, 100, 101, 1_000_000, u64::MAX - 50, u64::MAX] {
        for _ in 0..500 {
            let sent = engine.obfuscate_amount(amount);
            assert!(sent >= 1);
            let distance = if sent > amount { sent - amount } else { amount - sent };
            assert!(distance <= 100);
        }
    }
}

#[test]
fn amount_variation_is_drawn_anew() {
    let engine = StealthEngine::new(profile(true, true, true, 0));
    let seen: HashSet<u64> = (0..400).map(|_| engine.obfuscate_amount(1_000_000)).collect();
    assert!(seen.len() > 20);
    assert!(seen.iter().all(|sent| (999_900..1_000_100).contains(sent)));
}

#[test]
fn variation_is_added_and_clamped() {
    assert_eq!(apply_variation(1000, 0), 1000);
    assert_eq!(apply_variation(1000, -100), 900);
    assert_eq!(apply_variation(1000, 99), 1099);
    assert_eq!(apply_variation(100, -100), 1);
    assert_eq!(apply_variation(101, -100), 1);
    assert_eq!(apply_variation(102, -100), 2);
    assert_eq!(apply_variation(0, -100), 1);
    assert_eq!(apply_variation(0, 0), 1);
    assert_eq!(apply_variation(0, 5), 5);
    assert_eq!(apply_variation(u64::MAX, 99), u64::MAX);
    assert_eq!(apply_variation(u64::MAX - 10, 99), u64::MAX);
    assert_eq!(apply_variation(u64::MAX - 99, 99), u64::MAX);
    assert_eq!(apply_variation(u64::MAX, -100), u64::MAX - 100);
    assert_eq!(apply_variation(1u64 << 63, -1), (1u64 << 63) - 1);
    assert_eq!(apply_variation(5, i64::MIN), 1);
    assert_eq!(apply_variation(5, i64::MAX), 5 + i64::MAX as u64);
}

#[test]
fn stealth_id_decodes_to_32_bytes() {
    let engine = StealthEngine::new(StealthConfig::default());
    for _ in 0..200 {
        let id = engine.generate_stealth_transaction_id();
        let bytes = bs58::decode(&id).into_vec().unwrap();
        assert_eq!(bytes.len(), 32);
        assert_eq!(bs58::encode(&bytes).into_string(), id);
    }
}

#[test]
fn stealth_ids_do_not_collide() {
    let engine = StealthEngine::new(StealthConfig::default());
    let mut seen = HashSet::new();
    for _ in 0..10_000 {
        assert!(seen.insert(engine.generate_stealth_transaction_id()));
    }
}

#[test]
fn delay_is_zero_for_a_base_of_zero() {
    let engine = StealthEngine::new(profile(true, true, true, 0));
    for _ in 0..100 {
        assert_eq!(engine.stealth_delay(), 0);
    }
    assert_eq!(delay_with_jitter(0, 0), 0);
    assert_eq!(delay_with_jitter(0, 499), 0);
}

#[test]
fn delay_is_the_base_and_less_than_half_a_second_more() {
    let engine = StealthEngine::new(profile(true, true, true, 1000));
    let mut seen = HashSet::new();
    for _ in 0..2000 {
        let delay = engine.stealth_delay();
        assert!((1000..1500).contains(&delay));
        seen.insert(delay);
    }
    assert!(seen.len() > 50);
    assert_eq!(delay_with_jitter(1000, 0), 1000);
    assert_eq!(delay_with_jitter(1000, 499), 1499);
    assert_eq!(delay_with_jitter(1, 7), 8);
}

#[test]
fn delay_does_not_overflow() {
    assert_eq!(delay_with_jitter(u64::MAX, 0), u64::MAX);
    assert_eq!(delay_with_jitter(u64::MAX, 499), u64::MAX);
    assert_eq!(delay_with_jitter(u64::MAX - 10, 10), u64::MAX);
    assert_eq!(delay_with_jitter(u64::MAX - 10, 11), u64::MAX);
    assert_eq!(delay_with_jitter(u64::MAX - 10, 9), u64::MAX - 1);
    let engine = StealthEngine::new(profile(true, true, true, u64::MAX - 3));
    for _ in 0..100 {
        assert!(engine.stealth_delay() >= u64::MAX - 3);
    }
}

fn marked_intent() -> TransactionIntent {
    let mut data = TransactionIntent::new();
    data.sender = Some("FROM".to_string());
    data.amount = Some(5);
    for name in
        ["bundler", "kept", "bundle", "bundle_id", "bundle_hash", "fund_source", "source", "origin"]
    {
        data.extra.insert(name.to_string(), Json::Text(name.to_uppercase()));
    }
    data
}

#[test]
fn cluster_markers_are_removed_and_tag_and_time_added() {
    let mut data = marked_intent();
    strip_cluster_markers(&mut data, 0x1f, 1_700_000_000_123);
    for marker in
        ["bundler", "bundle", "bundle_id", "bundle_hash", "fund_source", "source", "origin"]
    {
        assert!(!data.extra.contains_key(marker));
    }
    assert_eq!(data.extra.entries, vec![("kept".to_string(), Json::Text("KEPT".to_string()))]);
    assert_eq!(data.sender, Some("FROM".to_string()));
    assert_eq!(data.amount, Some(5));
    assert_eq!(data.transaction_tag, Some("tx_000000000000001f".to_string()));
    assert_eq!(data.timestamp, Some(1_700_000_000_123));
    let fields = data.into_fields();
    for marker in
        ["bundler", "bundle", "bundle_id", "bundle_hash", "fund_source", "source", "origin"]
    {
        assert!(!fields.contains_key(marker));
    }
    assert_eq!(fields.get("from"), Some(&Json::Text("FROM".to_string())));
    assert_eq!(fields.get("amount"), Some(&Json::Unsigned(5)));
    assert_eq!(fields.get("kept"), Some(&Json::Text("KEPT".to_string())));
    assert_eq!(fields.get("transaction_id"), Some(&Json::Text("tx_000000000000001f".to_string())));
    assert_eq!(fields.get("timestamp"), Some(&Json::Unsigned(1_700_000_000_123)));
    assert_eq!(fields.entries.len(), 5);
}

#[test]
fn fields_without_markers_only_gain_tag_and_time() {
    let mut data = TransactionIntent::new();
    data.sender = Some("a".to_string());
    data.extra.insert("bundles".to_string(), Json::Bool(true));
    data.extra.insert("Source".to_string(), Json::Null);
    strip_cluster_markers(&mut data, u64::MAX, 0);
    assert_eq!(data.extra.entries.len(), 2);
    let fields = data.into_fields();
    assert_eq!(fields.get("from"), Some(&Json::Text("a".to_string())));
    assert_eq!(fields.get("bundles"), Some(&Json::Bool(true)));
    assert_eq!(fields.get("Source"), Some(&Json::Null));
    assert_eq!(fields.get("transaction_id"), Some(&Json::Text("tx_ffffffffffffffff".to_string())));
    assert_eq!(fields.get("timestamp"), Some(&Json::Unsigned(0)));
    assert_eq!(fields.entries.len(), 5);
}

#[test]
fn a_time_before_the_epoch_is_a_negative_number() {
    let mut data = TransactionIntent::new();
    strip_cluster_markers(&mut data, 1, -5);
    assert_eq!(data.timestamp, Some(-5));
    assert_eq!(data.into_fields().get("timestamp"), Some(&Json::Signed(-5)));
}

#[test]
fn tag_and_time_replace_those_that_were_there() {
    let mut data = TransactionIntent::new();
    data.transaction_tag = Some("mine".to_string());
    data.timestamp = Some(1);
    data.extra.insert("timestamp".to_string(), Json::Text("then".to_string()));
    strip_cluster_markers(&mut data, 2, 3);
    let fields = data.into_fields();
    assert_eq!(fields.get("transaction_id"), Some(&Json::Text("tx_0000000000000002".to_string())));
    assert_eq!(fields.get("timestamp"), Some(&Json::Unsigned(3)));
    assert_eq!(fields.entries.len(), 2);
}

#[test]
fn disguise_is_off_without_cluster_avoidance() {
    let engine = StealthEngine::new(profile(false, true, true, 0));
    let mut data = marked_intent();
    engine.avoid_bubble_map_detection(&mut data);
    assert_eq!(data, marked_intent());
    assert!(data.extra.contains_key("bundle_id"));
    assert_eq!(data.transaction_tag, None);
    assert_eq!(data.timestamp, None);
}

#[test]
fn disguise_draws_a_tag_and_reads_the_clock() {
    let engine = StealthEngine::new(profile(true, true, true, 0));
    let mut data = marked_intent();
    engine.avoid_bubble_map_detection(&mut data);
    assert!(!data.extra.contains_key("bundle_id"));
    assert_eq!(data.extra.entries.len(), 1);
    assert_eq!(data.sender, Some("FROM".to_string()));
    let tag = data.transaction_tag.clone().unwrap();
    assert_eq!(tag.len(), 19);
    assert!(tag.starts_with("tx_"));
    assert!(tag[3..].chars().all(|c| c.is_ascii_digit() || ('a'..='f').contains(&c)));
    assert!(data.timestamp.unwrap() > 1_600_000_000_000);
    let mut again = marked_intent();
    engine.avoid_bubble_map_detection(&mut again);
    assert_ne!(again.transaction_tag, data.transaction_tag);
}

#[test]
fn intent_is_sent_under_the_names_of_its_fields() {
    let mut data = TransactionIntent::new();
    assert!(data.into_fields().entries.is_empty());
    data = TransactionIntent::new();
    data.sender = Some("s".to_string());
    data.recipient = Some("r".to_string());
    data.amount = Some(1);
    data.stealth_id = Some("i".to_string());
    data.nonce = Some(2);
    data.gas_price = Some(3);
    data.transaction_tag = Some("t".to_string());
    data.timestamp = Some(4);
    data.extra.insert("memo".to_string(), Json::Bool(true));
    data.extra.insert("from".to_string(), Json::Text("gives way".to_string()));
    let fields = data.into_fields();
    assert_eq!(fields.get("from"), Some(&Json::Text("s".to_string())));
    assert_eq!(fields.get("to"), Some(&Json::Text("r".to_string())));
    assert_eq!(fields.get("amount"), Some(&Json::Unsigned(1)));
    assert_eq!(fields.get("stealth_id"), Some(&Json::Text("i".to_string())));
    assert_eq!(fields.get("nonce"), Some(&Json::Unsigned(2)));
    assert_eq!(fields.get("gas_price"), Some(&Json::Unsigned(3)));
    assert_eq!(fields.get("transaction_id"), Some(&Json::Text("t".to_string())));
    assert_eq!(fields.get("timestamp"), Some(&Json::Unsigned(4)));
    assert_eq!(fields.get("memo"), Some(&Json::Bool(true)));
    assert_eq!(fields.entries.len(), 9);
    assert_eq!(json_integer(-1), Json::Signed(-1));
    assert_eq!(json_integer(0), Json::Unsigned(0));
    assert_eq!(json_integer(i64::MAX), Json::Unsigned(i64::MAX as u64));
}

#[test]
fn identities_recur_in_the_same_order() {
    let mut engine = StealthEngine::new(profile(true, true, false, 0));
    let mut seen = Vec::new();
    for _ in 0..15 {
        let headers = engine.create_stealth_headers();
        seen.push(header(&headers, "user-agent").unwrap().to_string());
    }
    for (i, identity) in seen.iter().enumerate() {
        assert_eq!(identity, IDENTITIES[i % 5]);
    }
    for i in 0..10 {
        assert_eq!(seen[i], seen[i + 5]);
    }
}

#[test]
fn no_identity_is_named_without_rotation() {
    let mut engine = StealthEngine::new(profile(true, false, false, 0));
    for _ in 0..3 {
        let headers = engine.create_stealth_headers();
        assert!(headers.is_empty());
    }
    let mut rotating = StealthEngine::new(profile(true, true, false, 0));
    assert_eq!(rotating.create_stealth_headers().len(), 1);
}

#[test]
fn custom_headers_are_sent_under_lower_case_names() {
    let mut config = profile(true, true, false, 0);
    config.custom_headers = vec![
        ("X-Custom-Header".to_string(), "stealth-value".to_string()),
        ("Accept".to_string(), "application/json".to_string()),
    ];
    let mut engine = StealthEngine::new(config);
    let headers = engine.create_stealth_headers();
    assert_eq!(headers.len(), 3);
    assert_eq!(header(&headers, "x-custom-header"), Some("stealth-value"));
    assert_eq!(header(&headers, "accept"), Some("application/json"));
    assert_eq!(header(&headers, "user-agent"), Some(IDENTITIES[0]));
    let names: Vec<&str> = headers.keys().map(|name| name.as_str()).collect();
    assert!(names.contains(&"x-custom-header"));
    assert!(!names.contains(&"X-Custom-Header"));
}

#[test]
fn a_header_that_cannot_be_sent_is_left_out() {
    let mut config = profile(true, false, false, 0);
    config.custom_headers = vec![
        ("X-Good".to_string(), "fine".to_string()),
        ("X-Bad-Value".to_string(), "line\nbreak".to_string()),
        ("Bad Name".to_string(), "value".to_string()),
        ("".to_string(), "value".to_string()),
        ("X-Delete".to_string(), "a\u{7f}b".to_string()),
        ("X-Tab".to_string(), "a\tb".to_string()),
        ("X-Also-Good".to_string(), "caf\u{e9}".to_string()),
    ];
    let mut engine = StealthEngine::new(config);
    let headers = engine.create_stealth_headers();
    assert_eq!(headers.len(), 3);
    assert_eq!(header(&headers, "x-good"), Some("fine"));
    assert_eq!(header(&headers, "x-tab"), Some("a\tb"));
    assert_eq!(headers.get("x-also-good").unwrap().as_bytes(), "caf\u{e9}".as_bytes());
    assert!(headers.get("x-bad-value").is_none());
    assert!(headers.get("x-delete").is_none());
}

#[test]
fn a_later_custom_header_replaces_an_earlier_one() {
    let mut config = profile(true, true, false, 0);
    config.custom_headers = vec![
        ("Accept".to_string(), "text/html".to_string()),
        ("User-Agent".to_string(), "mine".to_string()),
        ("ACCEPT".to_string(), "application/json".to_string()),
    ];
    let mut engine = StealthEngine::new(config);
    let headers = engine.create_stealth_headers();
    assert_eq!(headers.len(), 2);
    assert_eq!(header(&headers, "accept"), Some("application/json"));
    assert_eq!(header(&headers, "user-agent"), Some("mine"));
    assert_eq!(headers.get_all("accept").iter().count(), 1);
}

#[test]
fn randomized_headers_come_from_the_lists() {
    let mut engine = StealthEngine::new(StealthConfig::default());
    let languages = ["en-US,en;q=0.9", "en-GB,en;q=0.9", "en-CA,en;q=0.9", "en-AU,en;q=0.9"];
    let encodings = ["gzip, deflate, br", "gzip, deflate", "br, gzip, deflate"];
    let mut seen_languages = HashSet::new();
    let mut seen_encodings = HashSet::new();
    let mut with_dnt = 0;
    for _ in 0..400 {
        let headers = engine.create_stealth_headers();
        let language = header(&headers, "accept-language").unwrap();
        let encoding = header(&headers, "accept-encoding").unwrap();
        assert!(languages.contains(&language));
        assert!(encodings.contains(&encoding));
        seen_languages.insert(language.to_string());
        seen_encodings.insert(encoding.to_string());
        assert_eq!(header(&headers, "sec-fetch-dest"), Some("empty"));
        assert_eq!(header(&headers, "sec-fetch-mode"), Some("cors"));
        assert_eq!(header(&headers, "sec-fetch-site"), Some("same-origin"));
        assert_eq!(header(&headers, "accept"), Some("application/json"));
        assert_eq!(header(&headers, "connection"), Some("keep-alive"));
        assert_eq!(header(&headers, "upgrade-insecure-requests"), Some("1"));
        match header(&headers, "dnt") {
            Some(value) => {
                assert_eq!(value, "1");
                with_dnt += 1;
                assert_eq!(headers.len(), 10);
            }
            None => assert_eq!(headers.len(), 9),
        }
    }
    assert_eq!(seen_languages.len(), 4);
    assert_eq!(seen_encodings.len(), 3);
    assert!(with_dnt > 100 && with_dnt < 300);
}

#[test]
fn randomized_headers_for_given_draws() {
    let mut headers = HeaderMap::new();
    headers.insert("accept-language", "de".parse().unwrap());
    headers.insert("x-kept", "yes".parse().unwrap());
    apply_random_headers(&mut headers, 2, 1, true);
    assert_eq!(header(&headers, "accept-language"), Some("en-CA,en;q=0.9"));
    assert_eq!(header(&headers, "accept-encoding"), Some("gzip, deflate"));
    assert_eq!(header(&headers, "dnt"), Some("1"));
    assert_eq!(header(&headers, "sec-fetch-dest"), Some("empty"));
    assert_eq!(header(&headers, "sec-fetch-mode"), Some("cors"));
    assert_eq!(header(&headers, "sec-fetch-site"), Some("same-origin"));
    assert_eq!(header(&headers, "x-kept"), Some("yes"));
    assert_eq!(headers.len(), 7);

    let mut plain = HeaderMap::new();
    apply_random_headers(&mut plain, 0, 2, false);
    assert_eq!(header(&plain, "accept-language"), Some("en-US,en;q=0.9"));
    assert_eq!(header(&plain, "accept-encoding"), Some("br, gzip, deflate"));
    assert!(plain.get("dnt").is_none());
    assert_eq!(plain.len(), 5);
}

#[test]
fn languages_and_encodings_by_place() {
    assert_eq!(language_at(0), "en-US,en;q=0.9");
    assert_eq!(language_at(1), "en-GB,en;q=0.9");
    assert_eq!(language_at(2), "en-CA,en;q=0.9");
    assert_eq!(language_at(3), "en-AU,en;q=0.9");
    assert_eq!(encoding_at(0), "gzip, deflate, br");
    assert_eq!(encoding_at(1), "gzip, deflate");
    assert_eq!(encoding_at(2), "br, gzip, deflate");
}

#[test]
fn rpc_payload_is_a_json_rpc_envelope() {
    let params = Json::Array(vec![Json::Unsigned(1)]);
    let payload = rpc_payload_with_id(42, "sendTransaction", params);
    assert_eq!(
        payload,
        Json::Object(vec![
            ("jsonrpc".to_string(), Json::Text("2.0".to_string())),
            ("id".to_string(), Json::Unsigned(42)),
            ("method".to_string(), Json::Text("sendTransaction".to_string())),
            ("params".to_string(), Json::Array(vec![Json::Unsigned(1)])),
        ])
    );
}

#[test]
fn rpc_payload_draws_its_request_number() {
    let engine = StealthEngine::new(StealthConfig::default());
    let mut seen = HashSet::new();
    for _ in 0..300 {
        let payload = engine.create_stealth_rpc_payload("getHealth", Json::Null);
        assert_eq!(payload.get("jsonrpc"), Some(&Json::Text("2.0".to_string())));
        assert_eq!(payload.get("method"), Some(&Json::Text("getHealth".to_string())));
        assert_eq!(payload.get("params"), Some(&Json::Null));
        match payload.get("id") {
            Some(Json::Unsigned(id)) => {
                assert!((1..1_000_000).contains(id));
                seen.insert(*id);
            }
            other => panic!("no request number: {:?}", other),
        }
    }
    assert!(seen.len() > 250);
}

#[test]
fn engine_keeps_its_profile() {
    let engine = StealthEngine::new(profile(false, true, false, 250));
    assert!(!engine.config().avoid_bubble_map);
    assert!(engine.config().rotate_user_agents);
    assert!(!engine.config().randomize_headers);
    assert_eq!(engine.config().delay_between_requests, 250);
}
