//! Helpers around the engine: pacing figures, checks on what the user typed,
//! display of amounts, and decoy data.

use crate::base58::{base58_bytes, decode_base58};
use crate::clock::{unix_millis, unix_seconds};
use crate::error::ConfigError;
use crate::json::{FieldMap, Json, JsonValue};
use crate::random::{random_u32, random_u64, random_u64_in, random_uuid};
use crate::text::{
    chars_of, decimal_text, hex_text, pow10, push_char, push_decimal, push_hex,
    push_zero_padded, starts_with, has_prefix, trim_bounds, trimmed, zero_padded,
    lemma_pow10_grows,
};
use vstd::prelude::*;

verus! {

/// A delay in milliseconds, drawn from `min_ms..max_ms`.
pub fn generate_random_delay(min_ms: u64, max_ms: u64) -> (delay: u64)
    requires
        min_ms < max_ms,
    ensures
        min_ms <= delay < max_ms,
{
    random_u64_in(min_ms, max_ms)
}

/// The pause, in milliseconds, that suits a batch of `transaction_count` items.
pub open spec fn optimal_delay(transaction_count: nat) -> nat {
    if transaction_count <= 10 {
        1000
    } else if transaction_count <= 50 {
        2000
    } else if transaction_count <= 100 {
        5000
    } else {
        10000
    }
}

/// Batch pacing as a step function of the batch size alone. The bundler does
/// not pace by it: between the items of a batch it waits as the stealth
/// profile says. The figure is here for callers that pace by the batch size.
pub fn calculate_optimal_delay(transaction_count: usize) -> (delay: u64)
    ensures
        delay == optimal_delay(transaction_count as nat),
{
    if transaction_count <= 10 {
        1000
    } else if transaction_count <= 50 {
        2000
    } else if transaction_count <= 100 {
        5000
    } else {
        10000
    }
}

/// How many bytes `text` takes in UTF-8, as `str::len` counts them.
pub open spec fn utf8_len(text: Seq<char>) -> usize {
    vstd::utf8::encode_utf8(text).len() as usize
}

/// The length, in bytes, of a token address written in base58.
pub const MINT_ADDRESS_LEN: usize = 44;

/// What is to be said of a target address of `length` bytes that base58 does
/// (`decodable`) or does not accept.
pub open spec fn mint_verdict(length: usize, decodable: bool) -> Result<(), ConfigError> {
    if length != 44 {
        Err(ConfigError::MintLength)
    } else if !decodable {
        Err(ConfigError::MintFormat)
    } else {
        Ok(())
    }
}

/// Judges a target address by its length and by whether base58 accepts it.
pub fn check_mint(length: usize, decodable: bool) -> (verdict: Result<(), ConfigError>)
    ensures
        verdict == mint_verdict(length, decodable),
{
    if length != MINT_ADDRESS_LEN {
        Err(ConfigError::MintLength)
    } else if !decodable {
        Err(ConfigError::MintFormat)
    } else {
        Ok(())
    }
}

/// Accepts a target address of 44 bytes that is base58 text. The length is
/// looked at first.
pub fn validate_token_mint(mint_address: &str) -> (verdict: Result<(), ConfigError>)
    ensures
        verdict == mint_verdict(utf8_len(mint_address@), base58_bytes(mint_address@) is Some),
{
    let decodable = decode_base58(mint_address).is_some();
    check_mint(mint_address.len(), decodable)
}

/// Whether `c` is one of the four blanks that are removed wherever they stand.
pub open spec fn is_blank(c: char) -> bool {
    c == ' ' || c == '\n' || c == '\r' || c == '\t'
}

/// `text` without its blanks.
pub open spec fn without_blanks(text: Seq<char>) -> Seq<char>
    decreases text.len(),
{
    if text.len() == 0 {
        text
    } else if is_blank(text.last()) {
        without_blanks(text.drop_last())
    } else {
        without_blanks(text.drop_last()).push(text.last())
    }
}

/// A private key as typed, cleaned: no white space at either end, no blank anywhere.
pub open spec fn sanitized_key(private_key: Seq<char>) -> Seq<char> {
    without_blanks(trimmed(private_key))
}

/// Cleans a private key as typed, and refuses one of which nothing is left.
pub fn sanitize_private_key(private_key: &str) -> (cleaned: Result<String, ConfigError>)
    ensures
        match cleaned {
            Ok(key) => key@ == sanitized_key(private_key@) && key@.len() > 0,
            Err(error) => error == ConfigError::EmptyPrivateKey && sanitized_key(
                private_key@,
            ).len() == 0,
        },
{
    let chars = chars_of(private_key);
    let (start, end) = trim_bounds(&chars);
    let ghost body = chars@.subrange(start as int, end as int);
    let mut key = String::new();
    let mut kept: usize = 0;
    let mut i: usize = start;
    proof {
        assert(body.subrange(0, 0) =~= Seq::<char>::empty());
    }
    while i < end
        invariant
            start <= i <= end <= chars.len(),
            body == chars@.subrange(start as int, end as int),
            key@ == without_blanks(body.subrange(0, i - start)),
            kept == key@.len(),
            kept <= i - start,
        decreases end - i,
    {
        let c = chars[i];
        proof {
            let seen = body.subrange(0, i - start + 1);
            assert(seen.drop_last() =~= body.subrange(0, i - start));
            assert(seen.last() == c);
        }
        if !(c == ' ' || c == '\n' || c == '\r' || c == '\t') {
            push_char(&mut key, c);
            kept = kept + 1;
        }
        i = i + 1;
    }
    proof {
        assert(body.subrange(0, end - start) =~= body);
    }
    if kept == 0 {
        Err(ConfigError::EmptyPrivateKey)
    } else {
        Ok(key)
    }
}

/// An amount of the smallest unit, written in whole units with `decimals`
/// places: without a fraction where there is none, else with all `decimals` places.
pub open spec fn amount_text(amount: nat, decimals: nat) -> Seq<char> {
    let unit = pow10(decimals);
    if amount % unit == 0 {
        decimal_text(amount / unit)
    } else {
        decimal_text(amount / unit) + seq!['.'] + zero_padded(amount % unit, decimals)
    }
}

/// Writes an amount of the smallest unit in whole units with `decimals` places.
pub fn format_amount_for_display(amount: u64, decimals: u8) -> (text: String)
    ensures
        text@ == amount_text(amount as nat, decimals as nat),
{
    let mut whole: u64 = 0;
    let mut fraction: u64 = amount;
    if decimals < 20 {
        let mut unit: u64 = 1;
        let mut e: u8 = 0;
        while e < decimals
            invariant
                e <= decimals < 20,
                unit == pow10(e as nat),
            decreases decimals - e,
        {
            proof {
                lemma_pow10_grows(19, (e + 1) as nat);
            }
            unit = unit * 10;
            e = e + 1;
        }
        proof {
            lemma_pow10_grows(19, decimals as nat);
        }
        whole = amount / unit;
        fraction = amount % unit;
    } else {
        proof {
            lemma_pow10_grows(decimals as nat, 20);
            let unit = pow10(decimals as nat);
            assert(amount as nat / unit == 0 && amount as nat % unit == amount) by {
                vstd::arithmetic::div_mod::lemma_small_mod(amount as nat, unit);
                vstd::arithmetic::div_mod::lemma_basic_div(amount as int, unit as int);
            }
        }
    }
    let mut text = String::new();
    push_decimal(&mut text, whole);
    if fraction != 0 {
        push_char(&mut text, '.');
        push_zero_padded(&mut text, fraction, decimals as usize);
    }
    proof {
        let shown = amount_text(amount as nat, decimals as nat);
        assert(text@ =~= shown);
    }
    text
}

/// What is to be said of an endpoint URL.
pub open spec fn url_verdict(url: Seq<char>) -> Result<(), ConfigError> {
    if !has_prefix(url, "http://"@) && !has_prefix(url, "https://"@) {
        Err(ConfigError::UrlScheme)
    } else if utf8_len(url) < 10 {
        Err(ConfigError::UrlTooShort)
    } else {
        Ok(())
    }
}

/// Accepts an endpoint URL that names `http` or `https` and has ten bytes or
/// more. The scheme is looked at first.
pub fn validate_rpc_url(url: &str) -> (verdict: Result<(), ConfigError>)
    ensures
        verdict == url_verdict(url@),
{
    if !starts_with(url, "http://") && !starts_with(url, "https://") {
        return Err(ConfigError::UrlScheme);
    }
    if url.len() < 10 {
        return Err(ConfigError::UrlTooShort);
    }
    Ok(())
}

/// A log line: the noise in square brackets, a space, the message.
pub open spec fn log_line(noise: u32, message: Seq<char>) -> Seq<char> {
    seq!['['] + decimal_text(noise as nat) + seq![']', ' '] + message
}

/// Puts `noise` in front of a log message.
pub fn stealth_log_message_with(noise: u32, message: &str) -> (line: String)
    ensures
        line@ == log_line(noise, message@),
{
    let mut line = String::new();
    push_char(&mut line, '[');
    push_decimal(&mut line, noise as u64);
    push_char(&mut line, ']');
    push_char(&mut line, ' ');
    line.append(message);
    proof {
        assert(line@ =~= log_line(noise, message@));
    }
    line
}

/// Puts random noise in front of a log message, so that no two lines look alike.
pub fn create_stealth_log_message(message: &str) -> (line: String)
    ensures
        exists|noise: u32| line@ == log_line(noise, message@),
{
    let noise = random_u32();
    stealth_log_message_with(noise, message)
}

/// A file name for a transaction record made at `seconds` with the random `suffix`.
pub open spec fn stealth_filename(seconds: nat, suffix: u32) -> Seq<char> {
    "tx_"@ + decimal_text(seconds) + seq!['_'] + hex_text(suffix as nat, 8) + ".json"@
}

/// The file name for a transaction record made at `seconds` with the random `suffix`.
pub fn stealth_filename_for(seconds: u64, suffix: u32) -> (name: String)
    ensures
        name@ == stealth_filename(seconds as nat, suffix),
{
    let mut name = "tx_".to_owned();
    push_decimal(&mut name, seconds);
    push_char(&mut name, '_');
    push_hex(&mut name, suffix as u64, 8);
    name.append(".json");
    proof {
        assert(name@ =~= stealth_filename(seconds as nat, suffix));
    }
    name
}

/// A file name for a transaction record: the time in seconds and eight random
/// hexadecimal digits.
pub fn generate_stealth_filename() -> (name: String)
    ensures
        exists|seconds: nat, suffix: u32| name@ == stealth_filename(seconds, suffix),
{
    let seconds = unix_seconds();
    let suffix = random_u32();
    stealth_filename_for(seconds as u64, suffix)
}

/// The name of the noise field for the draw `noise_id`.
pub open spec fn noise_name(noise_id: u32) -> Seq<char> {
    "noise_"@ + decimal_text(noise_id as nat)
}

/// The fields with noise added: a noise field that holds a random numeral, and
/// a time stamp.
pub open spec fn with_noise(
    fields: Map<Seq<char>, JsonValue>,
    noise_id: u32,
    noise: u64,
    stamp: u64,
) -> Map<Seq<char>, JsonValue> {
    fields.insert(noise_name(noise_id), JsonValue::Text(decimal_text(noise as nat))).insert(
        "timestamp"@,
        JsonValue::Integer(stamp as int),
    )
}

/// Adds the noise field for the draws `noise_id` and `noise`, and the time stamp `stamp`.
pub fn add_noise(data: FieldMap, noise_id: u32, noise: u64, stamp: u64) -> (noisy: FieldMap)
    ensures
        noisy@ == with_noise(data@, noise_id, noise, stamp),
{
    let mut noisy = data;
    let mut name = "noise_".to_owned();
    push_decimal(&mut name, noise_id as u64);
    let mut numeral = String::new();
    push_decimal(&mut numeral, noise);
    proof {
        assert(numeral@ =~= decimal_text(noise as nat));
    }
    noisy.insert(name, Json::Text(numeral));
    noisy.insert("timestamp".to_owned(), Json::Unsigned(stamp));
    noisy
}

/// Adds noise to transaction data: a field with a random name and a random
/// numeral, and the time in milliseconds, moved by up to a second.
pub fn obfuscate_transaction_data(data: FieldMap) -> (noisy: FieldMap)
    ensures
        exists|noise_id: u32, noise: u64, stamp: u64|
            noisy@ == #[trigger] with_noise(data@, noise_id, noise, stamp),
{
    let noise_id = random_u32();
    let noise = random_u64();
    let millis = unix_millis();
    let jitter = random_u64_in(0, 1000);
    let stamp: u64 = millis as u64 + jitter;
    let ghost before = data@;
    let noisy = add_noise(data, noise_id, noise, stamp);
    assert(noisy@ == with_noise(before, noise_id, noise, stamp));
    noisy
}

/// The metadata of a client with the number `client` in the session `session`.
pub open spec fn stealth_metadata(client: u32, session: Seq<char>) -> Map<Seq<char>, JsonValue> {
    Map::<Seq<char>, JsonValue>::empty().insert("version"@, JsonValue::Text("1.0.0"@)).insert(
        "client_id"@,
        JsonValue::Text("client_"@ + decimal_text(client as nat)),
    ).insert("session_id"@, JsonValue::Text(session))
}

/// The metadata of a client with the number `client` in the session `session`.
pub fn stealth_metadata_with(client: u32, session: String) -> (metadata: FieldMap)
    ensures
        metadata@ == stealth_metadata(client, session@),
{
    let mut metadata = FieldMap::new();
    metadata.insert("version".to_owned(), Json::Text("1.0.0".to_owned()));
    let mut client_id = "client_".to_owned();
    push_decimal(&mut client_id, client as u64);
    metadata.insert("client_id".to_owned(), Json::Text(client_id));
    metadata.insert("session_id".to_owned(), Json::Text(session));
    metadata
}

/// Metadata that makes a transaction look like an ordinary client's: a
/// version, a random client number, and a fresh session identifier of 36 characters.
pub fn create_stealth_metadata() -> (metadata: FieldMap)
    ensures
        exists|client: u32, session: Seq<char>|
            session.len() == 36 && metadata@ == #[trigger] stealth_metadata(client, session),
{
    let client = random_u32();
    let session = random_uuid();
    let ghost text = session@;
    let metadata = stealth_metadata_with(client, session);
    assert(metadata@ == stealth_metadata(client, text));
    metadata
}

} // verus!
