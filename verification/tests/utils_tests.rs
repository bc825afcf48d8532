use pumpfun_bundler_stealth::config::{Config, StealthConfig};
use pumpfun_bundler_stealth::error::ConfigError;
use pumpfun_bundler_stealth::get_info;
use pumpfun_bundler_stealth::json::{FieldMap, Json};
use pumpfun_bundler_stealth::text::{push_decimal, push_hex, push_zero_padded, starts_with};
use pumpfun_bundler_stealth::utils::{
    add_noise, calculate_optimal_delay, check_mint, create_stealth_log_message,
    create_stealth_metadata, format_amount_for_display, generate_random_delay,
    generate_stealth_filename, obfuscate_transaction_data, sanitize_private_key,
    stealth_filename_for, stealth_log_message_with, stealth_metadata_with, validate_rpc_url,
    validate_token_mint,
};

#[test]
fn optimal_delay_steps_at_the_boundaries() {
    assert_eq!(calculate_optimal_delay(0), 1000);
    assert_eq!(calculate_optimal_delay(5), 1000);
    assert_eq!(calculate_optimal_delay(10), 1000);
    assert_eq!(calculate_optimal_delay(11), 2000);
    assert_eq!(calculate_optimal_delay(50), 2000);
    assert_eq!(calculate_optimal_delay(51), 5000);
    assert_eq!(calculate_optimal_delay(100), 5000);
    assert_eq!(calculate_optimal_delay(101), 10000);
    assert_eq!(calculate_optimal_delay(usize::MAX), 10000);
}

#[test]
fn random_delay_stays_in_its_range() {
    for _ in 0..2000 {
        let delay = generate_random_delay(100, 110);
        assert!((100..110).contains(&delay));
    }
    assert_eq!(generate_random_delay(7, 8), 7);
}

#[test]
fn random_delay_takes_more_than_one_value() {
    let first = generate_random_delay(0, u64::MAX);
    let mut differs = false;
    for _ in 0..64 {
        if generate_random_delay(0, u64::MAX) != first {
            differs = true;
        }
    }
    assert!(differs);
}

#[test]
fn amounts_are_written_in_whole_units() {
    assert_eq!(format_amount_for_display(1_000_000_000, 9), "1");
    assert_eq!(format_amount_for_display(1_500_000_000, 9), "1.500000000");
    assert_eq!(format_amount_for_display(1, 9), "0.000000001");
    assert_eq!(format_amount_for_display(0, 9), "0");
    assert_eq!(format_amount_for_display(12345, 2), "123.45");
    assert_eq!(format_amount_for_display(12305, 2), "123.05");
    assert_eq!(format_amount_for_display(12300, 2), "123");
    assert_eq!(format_amount_for_display(42, 0), "42");
    assert_eq!(format_amount_for_display(u64::MAX, 0), "18446744073709551615");
    assert_eq!(format_amount_for_display(u64::MAX, 19), "1.8446744073709551615");
}

#[test]
fn amounts_with_more_places_than_digits_have_no_whole_part() {
    assert_eq!(format_amount_for_display(u64::MAX, 20), "0.18446744073709551615");
    assert_eq!(format_amount_for_display(5, 22), "0.0000000000000000000005");
    assert_eq!(format_amount_for_display(0, 255), "0");
}

#[test]
fn rpc_url_needs_a_scheme_and_a_length() {
    assert_eq!(validate_rpc_url("https://api.mainnet-beta.solana.com"), Ok(()));
    assert_eq!(validate_rpc_url("http://a.bc"), Ok(()));
    assert_eq!(validate_rpc_url("http://ab"), Err(ConfigError::UrlTooShort));
    assert_eq!(validate_rpc_url("https://"), Err(ConfigError::UrlTooShort));
    assert_eq!(validate_rpc_url("ftp://example.com"), Err(ConfigError::UrlScheme));
    assert_eq!(validate_rpc_url(""), Err(ConfigError::UrlScheme));
    assert_eq!(validate_rpc_url("HTTP://example.com"), Err(ConfigError::UrlScheme));
    assert_eq!(validate_rpc_url(" http://example.com"), Err(ConfigError::UrlScheme));
}

#[test]
fn rpc_url_length_counts_bytes() {
    // Nine characters, ten bytes.
    assert_eq!(validate_rpc_url("http://\u{e9}a"), Ok(()));
}

#[test]
fn token_mint_needs_44_bytes_of_base58() {
    let mint = "So11111111111111111111111111111111111111112A";
    assert_eq!(mint.len(), 44);
    assert_eq!(validate_token_mint(mint), Ok(()));
    assert_eq!(
        validate_token_mint("So11111111111111111111111111111111111111112"),
        Err(ConfigError::MintLength)
    );
    assert_eq!(validate_token_mint(""), Err(ConfigError::MintLength));
    // `0`, `O`, `I` and `l` are no base58 digits.
    assert_eq!(
        validate_token_mint("0o11111111111111111111111111111111111111112A"),
        Err(ConfigError::MintFormat)
    );
    assert_eq!(
        validate_token_mint("lo11111111111111111111111111111111111111112A"),
        Err(ConfigError::MintFormat)
    );
}

#[test]
fn token_mint_length_is_judged_first() {
    // 44 characters, but more bytes: the length is wrong, whatever the digits are.
    let mint = "\u{e9}o11111111111111111111111111111111111111112A";
    assert_eq!(mint.chars().count(), 44);
    assert_eq!(validate_token_mint(mint), Err(ConfigError::MintLength));
    assert_eq!(check_mint(44, true), Ok(()));
    assert_eq!(check_mint(44, false), Err(ConfigError::MintFormat));
    assert_eq!(check_mint(43, true), Err(ConfigError::MintLength));
    assert_eq!(check_mint(45, false), Err(ConfigError::MintLength));
}

#[test]
fn private_key_is_cleaned_of_white_space() {
    assert_eq!(sanitize_private_key("  abc def\n"), Ok("abcdef".to_string()));
    assert_eq!(sanitize_private_key("a\tb\r\nc d"), Ok("abcd".to_string()));
    assert_eq!(sanitize_private_key("[1, 2,\n 3]"), Ok("[1,2,3]".to_string()));
    assert_eq!(sanitize_private_key("key"), Ok("key".to_string()));
}

#[test]
fn private_key_keeps_other_white_space_inside() {
    // A no-break space goes at the ends, and stays in the middle.
    assert_eq!(
        sanitize_private_key("\u{a0}\u{2003}ab\u{a0}cd\u{3000}"),
        Ok("ab\u{a0}cd".to_string())
    );
}

#[test]
fn empty_private_key_is_refused() {
    assert_eq!(sanitize_private_key(""), Err(ConfigError::EmptyPrivateKey));
    assert_eq!(sanitize_private_key(" \n\t\r "), Err(ConfigError::EmptyPrivateKey));
    assert_eq!(sanitize_private_key("\u{a0}"), Err(ConfigError::EmptyPrivateKey));
}

#[test]
fn config_errors_say_their_cause() {
    assert_eq!(ConfigError::EmptyPrivateKey.message(), "Private key cannot be empty");
    assert_eq!(ConfigError::MintLength.message(), "Invalid mint address length");
    assert_eq!(ConfigError::MintFormat.message(), "Invalid mint address format");
    assert_eq!(
        ConfigError::UrlScheme.message(),
        "RPC URL must start with http:// or https://"
    );
    assert_eq!(ConfigError::UrlTooShort.message(), "RPC URL too short");
    assert_eq!(ConfigError::MalformedKey.message(), "Invalid private key encoding");
    assert_eq!(ConfigError::InvalidKeypair.message(), "Invalid keypair bytes");
}

#[test]
fn log_message_carries_the_noise_in_front() {
    assert_eq!(stealth_log_message_with(0, "ready"), "[0] ready");
    assert_eq!(stealth_log_message_with(4294967295, ""), "[4294967295] ");
    let line = create_stealth_log_message("sent");
    assert!(line.starts_with('['));
    assert!(line.ends_with("] sent"));
    let noise = &line[1..line.len() - "] sent".len()];
    assert_eq!(noise.parse::<u32>().unwrap().to_string(), noise);
}

#[test]
fn filename_holds_seconds_and_eight_hex_digits() {
    assert_eq!(stealth_filename_for(1700000000, 0xdeadbeef), "tx_1700000000_deadbeef.json");
    assert_eq!(stealth_filename_for(0, 0), "tx_0_00000000.json");
    assert_eq!(stealth_filename_for(12, 0x1f), "tx_12_0000001f.json");
    let name = generate_stealth_filename();
    assert!(name.starts_with("tx_"));
    assert!(name.ends_with(".json"));
    let middle = &name[3..name.len() - 5];
    let (seconds, suffix) = middle.split_once('_').unwrap();
    assert!(seconds.parse::<u64>().unwrap() > 1_600_000_000);
    assert_eq!(suffix.len(), 8);
    assert!(suffix.chars().all(|c| c.is_ascii_digit() || ('a'..='f').contains(&c)));
}

#[test]
fn numerals_are_written_digit_by_digit() {
    let mut text = String::from("n=");
    push_decimal(&mut text, 0);
    push_decimal(&mut text, 907);
    push_decimal(&mut text, u64::MAX);
    assert_eq!(text, "n=090718446744073709551615");
    let mut hex = String::new();
    push_hex(&mut hex, 0xabc, 4);
    push_hex(&mut hex, 0x12345, 2);
    push_hex(&mut hex, 7, 0);
    push_hex(&mut hex, u64::MAX, 16);
    assert_eq!(hex, "0abc45ffffffffffffffff");
    let mut padded = String::new();
    push_zero_padded(&mut padded, 5, 3);
    push_zero_padded(&mut padded, 12345, 3);
    push_zero_padded(&mut padded, 0, 0);
    assert_eq!(padded, "005123450");
}

#[test]
fn prefixes_are_found_char_by_char() {
    assert!(starts_with("http://x", "http://"));
    assert!(starts_with("abc", ""));
    assert!(starts_with("", ""));
    assert!(!starts_with("ab", "abc"));
    assert!(!starts_with("xbc", "abc"));
    assert!(starts_with("\u{e9}t\u{e9}", "\u{e9}t"));
}

#[test]
fn noise_adds_two_fields() {
    let mut data = FieldMap::new();
    data.insert("amount".to_string(), Json::Unsigned(5));
    let noisy = add_noise(data, 17, 99, 1234);
    assert_eq!(noisy.get("amount"), Some(&Json::Unsigned(5)));
    assert_eq!(noisy.get("noise_17"), Some(&Json::Text("99".to_string())));
    assert_eq!(noisy.get("timestamp"), Some(&Json::Unsigned(1234)));
    assert_eq!(noisy.entries.len(), 3);
}

#[test]
fn noise_replaces_an_earlier_time_stamp() {
    let mut data = FieldMap::new();
    data.insert("timestamp".to_string(), Json::Text("old".to_string()));
    let noisy = obfuscate_transaction_data(data);
    assert_eq!(noisy.entries.len(), 2);
    match noisy.get("timestamp") {
        Some(Json::Unsigned(stamp)) => assert!(*stamp > 1_600_000_000_000),
        other => panic!("no time stamp: {:?}", other),
    }
    let (name, value) = noisy
        .entries
        .iter()
        .find(|(name, _)| name.starts_with("noise_"))
        .unwrap();
    assert_eq!(name["noise_".len()..].parse::<u32>().unwrap().to_string(), name["noise_".len()..]);
    match value {
        Json::Text(numeral) => assert_eq!(numeral.parse::<u64>().unwrap().to_string(), *numeral),
        other => panic!("no numeral: {:?}", other),
    }
}

#[test]
fn metadata_names_version_client_and_session() {
    let metadata = stealth_metadata_with(7, "session".to_string());
    assert_eq!(metadata.get("version"), Some(&Json::Text("1.0.0".to_string())));
    assert_eq!(metadata.get("client_id"), Some(&Json::Text("client_7".to_string())));
    assert_eq!(metadata.get("session_id"), Some(&Json::Text("session".to_string())));
    assert_eq!(metadata.entries.len(), 3);

    let drawn = create_stealth_metadata();
    assert_eq!(drawn.get("version"), Some(&Json::Text("1.0.0".to_string())));
    match drawn.get("session_id") {
        Some(Json::Text(session)) => {
            assert_eq!(session.len(), 36);
            assert_eq!(session.matches('-').count(), 4);
        }
        other => panic!("no session: {:?}", other),
    }
    match drawn.get("client_id") {
        Some(Json::Text(client)) => assert!(client.starts_with("client_")),
        other => panic!("no client: {:?}", other),
    }
    let again = create_stealth_metadata();
    assert_ne!(drawn.get("session_id"), again.get("session_id"));
}

#[test]
fn library_says_its_name_and_version() {
    let info = get_info();
    assert_eq!(info.len(), 3);
    assert_eq!(info[0], ("name".to_string(), "pumpfun_bundler_stealth".to_string()));
    assert_eq!(info[1], ("version".to_string(), "0.1.0".to_string()));
    assert_eq!(info[2].0, "rust_version");
}

#[test]
fn config_starts_with_the_public_endpoint() {
    let config = Config::new();
    assert_eq!(config.rpc_url, "https://api.mainnet-beta.solana.com");
    assert_eq!(config.private_key, "");
    assert_eq!(config.token_mint, "");
    assert_eq!(config.amount, 0);
    assert!(config.stealth_mode);
    assert_eq!(
        config.user_agent,
        "Mozilla/5.0 (Windows NT 10.0; Win64; x64) AppleWebKit/537.36"
    );
    assert_eq!(config.proxy, None);
}

#[test]
fn config_builders_change_one_field() {
    let config = Config::new().with_stealth_mode(false);
    assert!(!config.stealth_mode);
    assert_eq!(config.rpc_url, "https://api.mainnet-beta.solana.com");
    let config = config.with_proxy(Some("http://proxy:8080".to_string()));
    assert_eq!(config.proxy, Some("http://proxy:8080".to_string()));
    assert!(!config.stealth_mode);
    let config = config.with_proxy(None).with_stealth_mode(true);
    assert_eq!(config.proxy, None);
    assert!(config.stealth_mode);
}

#[test]
fn default_profile_has_everything_on_but_proxies() {
    let profile = StealthConfig::default();
    assert!(profile.randomize_headers);
    assert!(profile.rotate_user_agents);
    assert!(!profile.use_proxy_rotation);
    assert_eq!(profile.delay_between_requests, 1000);
    assert_eq!(profile.max_retries, 3);
    assert!(profile.avoid_bubble_map);
    let expected = [
        ("Accept", "application/json"),
        ("Accept-Language", "en-US,en;q=0.9"),
        ("Accept-Encoding", "gzip, deflate, br"),
        ("Connection", "keep-alive"),
        ("Upgrade-Insecure-Requests", "1"),
    ];
    assert_eq!(profile.custom_headers.len(), expected.len());
    for (given, wanted) in profile.custom_headers.iter().zip(expected.iter()) {
        assert_eq!(given.0, wanted.0);
        assert_eq!(given.1, wanted.1);
    }
}
