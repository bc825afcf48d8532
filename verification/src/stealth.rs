//! The stealth engine: rotating client identities, randomized headers, pacing,
//! and the disguise of a transaction's fields.

use crate::base58::{base58_bytes, base58_text, encode_base58};
use crate::clock::unix_millis;
use crate::config::{header_pairs, StealthConfig};
use crate::headers::{
    header_entries, lemma_with_header_len, new_header_map, set_header, with_header, HEADER_LIMIT,
};
use crate::intent::TransactionIntent;
use crate::json::{Json, JsonValue, lemma_object_view, members_view};
use reqwest::header::HeaderMap;
use crate::random::{random_coin, random_i64_in, random_u64, random_u64_in, random_u8};
use crate::text::{hex_text, push_hex};
use vstd::prelude::*;

verus! {

/// The most custom headers that an engine takes.
pub const MAX_CUSTOM_HEADERS: usize = 4000;

/// How far an amount is moved at most, up or down.
pub const AMOUNT_SPREAD: i64 = 100;

/// How much is added to the base delay at most, in milliseconds, and never reached.
pub const DELAY_JITTER: u64 = 500;

/// The identities that an engine rotates through.
pub open spec fn default_identities() -> Seq<Seq<char>> {
    seq![
        "Mozilla/5.0 (Windows NT 10.0; Win64; x64) AppleWebKit/537.36 (KHTML, like Gecko) Chrome/120.0.0.0 Safari/537.36"@,
        "Mozilla/5.0 (Macintosh; Intel Mac OS X 10_15_7) AppleWebKit/537.36 (KHTML, like Gecko) Chrome/120.0.0.0 Safari/537.36"@,
        "Mozilla/5.0 (X11; Linux x86_64) AppleWebKit/537.36 (KHTML, like Gecko) Chrome/120.0.0.0 Safari/537.36"@,
        "Mozilla/5.0 (Windows NT 10.0; Win64; x64; rv:109.0) Gecko/20100101 Firefox/121.0"@,
        "Mozilla/5.0 (Macintosh; Intel Mac OS X 10.15; rv:109.0) Gecko/20100101 Firefox/121.0"@,
    ]
}

/// `amount` moved by `variation`, and kept between 1 and the largest amount.
pub open spec fn perturbed(amount: u64, variation: int) -> int {
    let moved = amount + variation;
    if moved < 1 {
        1
    } else if moved > u64::MAX {
        u64::MAX as int
    } else {
        moved
    }
}

/// The delay before a request: none for a base of zero, else the base and the
/// jitter, as far as that fits.
pub open spec fn paced_delay(base: u64, jitter: int) -> int {
    if base == 0 {
        0
    } else if base + jitter > u64::MAX {
        u64::MAX as int
    } else {
        base + jitter
    }
}

/// The envelope of a JSON-RPC 2.0 call.
pub open spec fn rpc_envelope(id: int, method: Seq<char>, params: JsonValue) -> JsonValue {
    JsonValue::Object(
        seq![
            ("jsonrpc"@, JsonValue::Text("2.0"@)),
            ("id"@, JsonValue::Integer(id)),
            ("method"@, JsonValue::Text(method)),
            ("params"@, params),
        ],
    )
}

/// Whether a field of this name would tell that a transaction belongs to a
/// batch, or where its funds came from.
pub open spec fn is_cluster_marker(name: Seq<char>) -> bool {
    ||| name == "bundler"@
    ||| name == "bundle"@
    ||| name == "bundle_id"@
    ||| name == "bundle_hash"@
    ||| name == "fund_source"@
    ||| name == "source"@
    ||| name == "origin"@
}

/// The fields without the cluster markers.
pub open spec fn without_markers(fields: Map<Seq<char>, JsonValue>) -> Map<Seq<char>, JsonValue> {
    fields.remove("bundler"@).remove("bundle"@).remove("bundle_id"@).remove("bundle_hash"@).remove(
        "fund_source"@,
    ).remove("source"@).remove("origin"@)
}

/// The tag of a transaction: `tx_` and sixteen hexadecimal digits.
pub open spec fn transaction_tag(draw: u64) -> Seq<char> {
    "tx_"@ + hex_text(draw as nat, 16)
}

/// The fields of a transaction that is to look like any other: no cluster
/// marker, a transaction tag, and the time in milliseconds.
pub open spec fn disguised(fields: Map<Seq<char>, JsonValue>, draw: u64, millis: int) -> Map<
    Seq<char>,
    JsonValue,
> {
    without_markers(fields).insert(
        "transaction_id"@,
        JsonValue::Text(transaction_tag(draw)),
    ).insert("timestamp"@, JsonValue::Integer(millis))
}

/// The names of the fields that have a place of their own are no cluster
/// markers, and differ from one another.
proof fn lemma_field_names()
    ensures
        !is_cluster_marker("from"@),
        !is_cluster_marker("to"@),
        !is_cluster_marker("amount"@),
        !is_cluster_marker("stealth_id"@),
        !is_cluster_marker("nonce"@),
        !is_cluster_marker("gas_price"@),
        !is_cluster_marker("transaction_id"@),
        !is_cluster_marker("timestamp"@),
        "transaction_id"@ != "timestamp"@,
        "transaction_id"@ != "from"@ && "timestamp"@ != "from"@,
        "transaction_id"@ != "to"@ && "timestamp"@ != "to"@,
        "transaction_id"@ != "amount"@ && "timestamp"@ != "amount"@,
        "transaction_id"@ != "stealth_id"@ && "timestamp"@ != "stealth_id"@,
        "transaction_id"@ != "nonce"@ && "timestamp"@ != "nonce"@,
        "transaction_id"@ != "gas_price"@ && "timestamp"@ != "gas_price"@,
{
    reveal_strlit("bundler");
    reveal_strlit("bundle");
    reveal_strlit("bundle_id");
    reveal_strlit("bundle_hash");
    reveal_strlit("fund_source");
    reveal_strlit("source");
    reveal_strlit("origin");
    reveal_strlit("transaction_id");
    reveal_strlit("timestamp");
    reveal_strlit("from");
    reveal_strlit("to");
    reveal_strlit("amount");
    reveal_strlit("stealth_id");
    reveal_strlit("nonce");
    reveal_strlit("gas_price");
    assert("bundler"@.len() == 7 && "bundle"@.len() == 6 && "bundle_id"@.len() == 9);
    assert("bundle_hash"@.len() == 11 && "fund_source"@.len() == 11);
    assert("source"@.len() == 6 && "origin"@.len() == 6);
    assert("transaction_id"@.len() == 14 && "timestamp"@.len() == 9);
    assert("from"@.len() == 4 && "to"@.len() == 2 && "amount"@.len() == 6);
    assert("stealth_id"@.len() == 10 && "nonce"@.len() == 5 && "gas_price"@.len() == 9);
    assert("timestamp"@[0] != "bundle_id"@[0]);
    assert("gas_price"@[0] != "bundle_id"@[0]);
    assert("gas_price"@[0] != "timestamp"@[0]);
    assert("amount"@[0] != "bundle"@[0]);
    assert("amount"@[0] != "source"@[0]);
    assert("amount"@[0] != "origin"@[0]);
}

/// Takes the cluster markers out of `data`, and puts in a transaction tag made
/// of `draw` and the time `millis`.
pub fn strip_cluster_markers(data: &mut TransactionIntent, draw: u64, millis: i64)
    ensures
        final(data)@ == disguised(old(data)@, draw, millis as int),
        final(data).extra@ == without_markers(old(data).extra@),
        final(data).transaction_tag is Some,
        final(data).transaction_tag->0@ == transaction_tag(draw),
        final(data).timestamp == Some(millis),
        final(data).sender == old(data).sender,
        final(data).recipient == old(data).recipient,
        final(data).amount == old(data).amount,
        final(data).stealth_id == old(data).stealth_id,
        final(data).nonce == old(data).nonce,
        final(data).gas_price == old(data).gas_price,
{
    data.extra.remove("bundler");
    data.extra.remove("bundle");
    data.extra.remove("bundle_id");
    data.extra.remove("bundle_hash");
    data.extra.remove("fund_source");
    data.extra.remove("source");
    data.extra.remove("origin");
    let mut tag = "tx_".to_owned();
    push_hex(&mut tag, draw, 16);
    data.transaction_tag = Some(tag);
    data.timestamp = Some(millis);
    proof {
        lemma_field_names();
        assert(data.extra@ == without_markers(old(data).extra@));
        assert(data.body(data.extra@) =~= without_markers(old(data).body(old(data).extra@)));
        assert(data@ =~= disguised(old(data)@, draw, millis as int));
    }
}

/// What the disguise does to the fields: every cluster marker is gone, the tag
/// and the time are there, and every other field is as it was. Fields without
/// a cluster marker lose nothing.
pub proof fn lemma_disguise(fields: Map<Seq<char>, JsonValue>, draw: u64, millis: int)
    ensures
        forall|name: Seq<char>|
            is_cluster_marker(name) ==> !(#[trigger] disguised(fields, draw, millis).contains_key(
                name,
            )),
        disguised(fields, draw, millis).contains_key("transaction_id"@),
        disguised(fields, draw, millis)["transaction_id"@] == JsonValue::Text(transaction_tag(draw)),
        disguised(fields, draw, millis).contains_key("timestamp"@),
        disguised(fields, draw, millis)["timestamp"@] == JsonValue::Integer(millis),
        forall|name: Seq<char>|
            !is_cluster_marker(name) && name != "transaction_id"@ && name != "timestamp"@ ==> (
            #[trigger] disguised(fields, draw, millis).contains_key(name)) == fields.contains_key(
                name,
            ),
        forall|name: Seq<char>|
            !is_cluster_marker(name) && name != "transaction_id"@ && name != "timestamp"@
                && fields.contains_key(name) ==> #[trigger] disguised(fields, draw, millis)[name]
                == fields[name],
        (forall|name: Seq<char>| is_cluster_marker(name) ==> !fields.contains_key(name))
            ==> without_markers(fields) == fields,
{
    reveal_strlit("bundler");
    reveal_strlit("bundle");
    reveal_strlit("bundle_id");
    reveal_strlit("bundle_hash");
    reveal_strlit("fund_source");
    reveal_strlit("source");
    reveal_strlit("origin");
    reveal_strlit("transaction_id");
    reveal_strlit("timestamp");
    assert("bundler"@.len() == 7 && "bundle"@.len() == 6 && "bundle_id"@.len() == 9);
    assert("bundle_hash"@.len() == 11 && "fund_source"@.len() == 11);
    assert("source"@.len() == 6 && "origin"@.len() == 6);
    assert("transaction_id"@.len() == 14 && "timestamp"@.len() == 9);
    assert("timestamp"@[0] != "bundle_id"@[0]);
    if forall|name: Seq<char>| is_cluster_marker(name) ==> !fields.contains_key(name) {
        assert(is_cluster_marker("bundler"@));
        assert(is_cluster_marker("bundle"@));
        assert(is_cluster_marker("bundle_id"@));
        assert(is_cluster_marker("bundle_hash"@));
        assert(is_cluster_marker("fund_source"@));
        assert(is_cluster_marker("source"@));
        assert(is_cluster_marker("origin"@));
        assert(without_markers(fields) =~= fields);
    }
}

/// The language preferences that a request may state.
pub open spec fn languages() -> Seq<Seq<char>> {
    seq!["en-US,en;q=0.9"@, "en-GB,en;q=0.9"@, "en-CA,en;q=0.9"@, "en-AU,en;q=0.9"@]
}

/// The encodings that a request may ask for.
pub open spec fn encodings() -> Seq<Seq<char>> {
    seq!["gzip, deflate, br"@, "gzip, deflate"@, "br, gzip, deflate"@]
}

/// The entries once the randomized headers are set: the chosen language and
/// encoding, the do-not-track header where `dnt` says so, and the fetch metadata.
pub open spec fn random_headers(
    entries: Map<Seq<u8>, Seq<u8>>,
    language: int,
    encoding: int,
    dnt: bool,
) -> Map<Seq<u8>, Seq<u8>> {
    let chosen = with_header(
        with_header(entries, "Accept-Language"@, languages()[language]),
        "Accept-Encoding"@,
        encodings()[encoding],
    );
    let marked = if dnt {
        with_header(chosen, "DNT"@, "1"@)
    } else {
        chosen
    };
    with_header(
        with_header(
            with_header(marked, "Sec-Fetch-Dest"@, "empty"@),
            "Sec-Fetch-Mode"@,
            "cors"@,
        ),
        "Sec-Fetch-Site"@,
        "same-origin"@,
    )
}

/// The entries once every header of a list is set, in the order of the list.
pub open spec fn with_headers(
    entries: Map<Seq<u8>, Seq<u8>>,
    headers: Seq<(Seq<char>, Seq<char>)>,
) -> Map<Seq<u8>, Seq<u8>>
    decreases headers.len(),
{
    if headers.len() == 0 {
        entries
    } else {
        with_header(
            with_headers(entries, headers.drop_last()),
            headers.last().0,
            headers.last().1,
        )
    }
}

/// The header set of one request: the identity where identities rotate, then
/// the custom headers, then the randomized ones where headers are randomized.
pub open spec fn stealth_headers(
    profile: StealthConfig,
    identity: Seq<char>,
    language: int,
    encoding: int,
    dnt: bool,
) -> Map<Seq<u8>, Seq<u8>> {
    let named = if profile.rotate_user_agents {
        with_header(Map::empty(), "user-agent"@, identity)
    } else {
        Map::empty()
    };
    let custom = with_headers(named, header_pairs(profile.custom_headers@));
    if profile.randomize_headers {
        random_headers(custom, language, encoding, dnt)
    } else {
        custom
    }
}

/// The cursor after one more request.
pub open spec fn next_cursor(cursor: nat, pool_len: nat) -> nat {
    (((cursor + 1) as int) % (pool_len as int)) as nat
}

/// The cursor after `calls` more requests.
pub open spec fn cursor_after(cursor: nat, pool_len: nat, calls: nat) -> nat
    decreases calls,
{
    if calls == 0 {
        cursor
    } else {
        next_cursor(cursor_after(cursor, pool_len, (calls - 1) as nat), pool_len)
    }
}

/// The cursor moves on by one place with each request, and round the pool.
pub proof fn lemma_cursor_after(cursor: nat, pool_len: nat, calls: nat)
    requires
        cursor < pool_len,
    ensures
        cursor_after(cursor, pool_len, calls) == (cursor + calls) % pool_len,
    decreases calls,
{
    if calls == 0 {
        vstd::arithmetic::div_mod::lemma_small_mod(cursor, pool_len);
    } else {
        lemma_cursor_after(cursor, pool_len, (calls - 1) as nat);
        vstd::arithmetic::div_mod::lemma_add_mod_noop(
            (cursor + calls - 1) as int,
            1,
            pool_len as int,
        );
        vstd::arithmetic::div_mod::lemma_mod_bound((cursor + calls - 1) as int, pool_len as int);
        if pool_len == 1 {
            assert(((cursor + calls - 1) % 1 + 1) % 1 == (cursor + calls) % 1);
        } else {
            vstd::arithmetic::div_mod::lemma_small_mod(1, pool_len);
        }
    }
}

/// The identity that the request after `calls` others names.
pub open spec fn identity_after(pool: Seq<Seq<char>>, cursor: nat, calls: nat) -> Seq<char> {
    pool[cursor_after(cursor, pool.len(), calls) as int]
}

/// Rotation cycles: after as many requests as the pool has identities, the
/// cursor is where it was, and every request names the identity that the
/// request a whole round earlier named.
pub proof fn lemma_rotation_cycles(pool: Seq<Seq<char>>, cursor: nat, calls: nat)
    requires
        cursor < pool.len(),
    ensures
        cursor_after(cursor, pool.len(), calls) < pool.len(),
        cursor_after(cursor, pool.len(), pool.len()) == cursor,
        identity_after(pool, cursor, calls + pool.len()) == identity_after(pool, cursor, calls),
{
    let pool_len = pool.len();
    lemma_cursor_after(cursor, pool_len, pool_len);
    lemma_cursor_after(cursor, pool_len, calls + pool_len);
    lemma_cursor_after(cursor, pool_len, calls);
    vstd::arithmetic::div_mod::lemma_mod_add_multiples_vanish(cursor as int, pool_len as int);
    vstd::arithmetic::div_mod::lemma_mod_add_multiples_vanish(
        (cursor + calls) as int,
        pool_len as int,
    );
    vstd::arithmetic::div_mod::lemma_small_mod(cursor, pool_len);
    vstd::arithmetic::div_mod::lemma_mod_bound((cursor + calls) as int, pool_len as int);
}

/// The language preference at place `choice`.
pub fn language_at(choice: usize) -> (language: &'static str)
    requires
        choice < 4,
    ensures
        language@ == languages()[choice as int],
{
    if choice == 0 {
        "en-US,en;q=0.9"
    } else if choice == 1 {
        "en-GB,en;q=0.9"
    } else if choice == 2 {
        "en-CA,en;q=0.9"
    } else {
        "en-AU,en;q=0.9"
    }
}

/// The encoding preference at place `choice`.
pub fn encoding_at(choice: usize) -> (encoding: &'static str)
    requires
        choice < 3,
    ensures
        encoding@ == encodings()[choice as int],
{
    if choice == 0 {
        "gzip, deflate, br"
    } else if choice == 1 {
        "gzip, deflate"
    } else {
        "br, gzip, deflate"
    }
}

/// Sets the randomized headers for the draws that were made.
pub fn apply_random_headers(headers: &mut HeaderMap, language: usize, encoding: usize, dnt: bool)
    requires
        language < 4,
        encoding < 3,
        header_entries(*old(headers)).dom().finite(),
        header_entries(*old(headers)).len() + 6 <= HEADER_LIMIT,
    ensures
        header_entries(*final(headers)) == random_headers(
            header_entries(*old(headers)),
            language as int,
            encoding as int,
            dnt,
        ),
        header_entries(*final(headers)).dom().finite(),
        header_entries(*final(headers)).len() <= header_entries(*old(headers)).len() + 6,
{
    let ghost e0 = header_entries(*headers);
    set_header(headers, "Accept-Language", language_at(language));
    let ghost e1 = header_entries(*headers);
    proof {
        lemma_with_header_len(e0, "Accept-Language"@, languages()[language as int]);
    }
    set_header(headers, "Accept-Encoding", encoding_at(encoding));
    let ghost e2 = header_entries(*headers);
    proof {
        lemma_with_header_len(e1, "Accept-Encoding"@, encodings()[encoding as int]);
    }
    if dnt {
        set_header(headers, "DNT", "1");
        proof {
            lemma_with_header_len(e2, "DNT"@, "1"@);
        }
    }
    let ghost e3 = header_entries(*headers);
    set_header(headers, "Sec-Fetch-Dest", "empty");
    let ghost e4 = header_entries(*headers);
    proof {
        lemma_with_header_len(e3, "Sec-Fetch-Dest"@, "empty"@);
    }
    set_header(headers, "Sec-Fetch-Mode", "cors");
    let ghost e5 = header_entries(*headers);
    proof {
        lemma_with_header_len(e4, "Sec-Fetch-Mode"@, "cors"@);
    }
    set_header(headers, "Sec-Fetch-Site", "same-origin");
    proof {
        lemma_with_header_len(e5, "Sec-Fetch-Site"@, "same-origin"@);
    }
}

/// `amount` moved by `variation`, and kept between 1 and the largest amount.
pub fn apply_variation(amount: u64, variation: i64) -> (moved: u64)
    ensures
        moved == perturbed(amount, variation as int),
{
    let sum: i128 = amount as i128 + variation as i128;
    if sum < 1 {
        1
    } else if sum > u64::MAX as i128 {
        u64::MAX
    } else {
        sum as u64
    }
}

/// The delay before a request for a base delay and a jitter that was drawn.
pub fn delay_with_jitter(base: u64, jitter: u64) -> (delay: u64)
    ensures
        delay == paced_delay(base, jitter as int),
{
    if base == 0 {
        0
    } else if jitter > u64::MAX - base {
        u64::MAX
    } else {
        base + jitter
    }
}

/// The envelope of a JSON-RPC 2.0 call with the request number `id`.
pub fn rpc_payload_with_id(id: u64, method: &str, params: Json) -> (payload: Json)
    ensures
        payload@ == rpc_envelope(id as int, method@, params@),
{
    let mut members: Vec<(String, Json)> = Vec::new();
    members.push(("jsonrpc".to_owned(), Json::Text("2.0".to_owned())));
    members.push(("id".to_owned(), Json::Unsigned(id)));
    members.push(("method".to_owned(), Json::Text(method.to_owned())));
    members.push(("params".to_owned(), params));
    proof {
        lemma_object_view(members);
        assert(members_view(members@) =~= rpc_envelope(id as int, method@, params@)->Object_0);
    }
    Json::Object(members)
}

/// The engine: a stealth profile, the pool of client identities, and the
/// place in the pool that the next request takes its identity from.
pub struct StealthEngine {
    config: StealthConfig,
    user_agents: Vec<String>,
    current_user_agent_index: usize,
}

impl StealthEngine {
    #[verifier::type_invariant]
    spec fn well_formed(self) -> bool {
        &&& self.user_agents.len() > 0
        &&& self.current_user_agent_index < self.user_agents.len()
        &&& self.config.custom_headers.len() <= MAX_CUSTOM_HEADERS
    }

    /// The profile that the engine was made with.
    pub closed spec fn profile(self) -> StealthConfig {
        self.config
    }

    /// The pool of client identities, in the order of rotation.
    pub closed spec fn identities(self) -> Seq<Seq<char>> {
        Seq::new(self.user_agents.len() as nat, |i: int| self.user_agents[i]@)
    }

    /// The place in the pool that the next request takes its identity from.
    pub closed spec fn cursor(self) -> nat {
        self.current_user_agent_index as nat
    }

    /// An engine with the given profile, the pool of five browser identities,
    /// and the cursor on the first of them. The profile holds no more than
    /// `MAX_CUSTOM_HEADERS` custom headers: a header map has room for few more.
    pub fn new(config: StealthConfig) -> (engine: StealthEngine)
        requires
            config.custom_headers.len() <= MAX_CUSTOM_HEADERS,
        ensures
            engine.profile() == config,
            engine.identities() == default_identities(),
            engine.cursor() == 0,
    {
        let mut user_agents: Vec<String> = Vec::new();
        user_agents.push(
            "Mozilla/5.0 (Windows NT 10.0; Win64; x64) AppleWebKit/537.36 (KHTML, like Gecko) Chrome/120.0.0.0 Safari/537.36".to_owned(),
        );
        user_agents.push(
            "Mozilla/5.0 (Macintosh; Intel Mac OS X 10_15_7) AppleWebKit/537.36 (KHTML, like Gecko) Chrome/120.0.0.0 Safari/537.36".to_owned(),
        );
        user_agents.push(
            "Mozilla/5.0 (X11; Linux x86_64) AppleWebKit/537.36 (KHTML, like Gecko) Chrome/120.0.0.0 Safari/537.36".to_owned(),
        );
        user_agents.push(
            "Mozilla/5.0 (Windows NT 10.0; Win64; x64; rv:109.0) Gecko/20100101 Firefox/121.0".to_owned(),
        );
        user_agents.push(
            "Mozilla/5.0 (Macintosh; Intel Mac OS X 10.15; rv:109.0) Gecko/20100101 Firefox/121.0".to_owned(),
        );
        let engine = StealthEngine { config, user_agents, current_user_agent_index: 0 };
        proof {
            assert(engine.identities() =~= default_identities());
        }
        engine
    }

    /// The profile that the engine was made with.
    pub fn config(&self) -> (config: &StealthConfig)
        ensures
            *config == self.profile(),
    {
        &self.config
    }

    /// How long to wait before the next request, in milliseconds: nothing for a
    /// base delay of zero, else the base delay and up to half a second more.
    pub fn stealth_delay(&self) -> (delay: u64)
        ensures
            self.profile().delay_between_requests == 0 ==> delay == 0,
            exists|jitter: int|
                0 <= jitter < DELAY_JITTER && delay == #[trigger] paced_delay(
                    self.profile().delay_between_requests,
                    jitter,
                ),
    {
        let base = self.config.delay_between_requests;
        if base == 0 {
            assert(paced_delay(self.profile().delay_between_requests, 0) == 0);
            return 0;
        }
        let jitter = random_u64_in(0, DELAY_JITTER);
        let delay = delay_with_jitter(base, jitter);
        assert(delay == paced_delay(self.profile().delay_between_requests, jitter as int));
        delay
    }

    /// A fresh correlation token: 32 random bytes in base58.
    pub fn generate_stealth_transaction_id(&self) -> (id: String)
        ensures
            exists|bytes: Seq<u8>|
                bytes.len() == 32 && id@ == #[trigger] base58_text(bytes) && base58_bytes(id@)
                    == Some(bytes),
    {
        let mut bytes: Vec<u8> = Vec::new();
        while bytes.len() < 32
            invariant
                bytes.len() <= 32,
            decreases 32 - bytes.len(),
        {
            bytes.push(random_u8());
        }
        let id = encode_base58(&bytes);
        assert(id@ == base58_text(bytes@));
        id
    }

    /// The amount as it is sent: as given without cluster avoidance, else moved
    /// by a random variation of less than a hundred units, and never below 1.
    pub fn obfuscate_amount(&self, amount: u64) -> (sent: u64)
        ensures
            !self.profile().avoid_bubble_map ==> sent == amount,
            self.profile().avoid_bubble_map ==> sent >= 1 && -AMOUNT_SPREAD <= sent - amount
                <= AMOUNT_SPREAD,
            self.profile().avoid_bubble_map ==> exists|variation: int|
                -AMOUNT_SPREAD <= variation < AMOUNT_SPREAD && sent == #[trigger] perturbed(
                    amount,
                    variation,
                ),
    {
        if !self.config.avoid_bubble_map {
            return amount;
        }
        let variation = random_i64_in(-AMOUNT_SPREAD, AMOUNT_SPREAD);
        let sent = apply_variation(amount, variation);
        assert(sent == perturbed(amount, variation as int));
        sent
    }

    /// The envelope of a JSON-RPC 2.0 call, under a random request number
    /// between 1 and 999999.
    pub fn create_stealth_rpc_payload(&self, method: &str, params: Json) -> (payload: Json)
        ensures
            exists|id: int|
                1 <= id < 1_000_000 && payload@ == #[trigger] rpc_envelope(id, method@, params@),
    {
        let id = random_u64_in(1, 1_000_000);
        let payload = rpc_payload_with_id(id, method, params);
        assert(payload@ == rpc_envelope(id as int, method@, params@));
        payload
    }
    /// Makes a transaction look like any other, where cluster avoidance is on:
    /// the cluster markers go, a random transaction tag and the time come in.
    /// Without cluster avoidance the fields stay as they are.
    pub fn avoid_bubble_map_detection(&self, transaction_data: &mut TransactionIntent)
        ensures
            !self.profile().avoid_bubble_map ==> final(transaction_data)@ == old(
                transaction_data,
            )@,
            self.profile().avoid_bubble_map ==> exists|draw: u64, millis: int|
                0 <= millis && final(transaction_data)@ == #[trigger] disguised(
                    old(transaction_data)@,
                    draw,
                    millis,
                ),
    {
        if !self.config.avoid_bubble_map {
            return ;
        }
        let draw = random_u64();
        let millis = unix_millis();
        strip_cluster_markers(transaction_data, draw, millis);
        assert(transaction_data@ == disguised(old(transaction_data)@, draw, millis as int));
    }
    /// Sets the randomized headers: a language and an encoding drawn from the
    /// lists, the do-not-track header in one request of two, and the fetch metadata.
    fn add_random_headers(&self, headers: &mut HeaderMap)
        requires
            header_entries(*old(headers)).dom().finite(),
            header_entries(*old(headers)).len() + 6 <= HEADER_LIMIT,
        ensures
            exists|language: int, encoding: int, dnt: bool|
                0 <= language < 4 && 0 <= encoding < 3 && header_entries(*final(headers))
                    == #[trigger] random_headers(
                    header_entries(*old(headers)),
                    language,
                    encoding,
                    dnt,
                ),
    {
        let language = random_u64_in(0, 4) as usize;
        let encoding = random_u64_in(0, 3) as usize;
        let dnt = random_coin();
        apply_random_headers(headers, language, encoding, dnt);
        assert(header_entries(*headers) == random_headers(
            header_entries(*old(headers)),
            language as int,
            encoding as int,
            dnt,
        ));
    }

    /// The header set for the next request. Where identities rotate, it names
    /// the identity under the cursor, and the cursor moves on, round the pool.
    /// A header whose name or value cannot be sent is left out.
    pub fn create_stealth_headers(&mut self) -> (headers: HeaderMap)
        ensures
            final(self).profile() == old(self).profile(),
            final(self).identities() == old(self).identities(),
            old(self).cursor() < old(self).identities().len(),
            final(self).cursor() == if old(self).profile().rotate_user_agents {
                next_cursor(old(self).cursor(), old(self).identities().len())
            } else {
                old(self).cursor()
            },
            exists|language: int, encoding: int, dnt: bool|
                0 <= language < 4 && 0 <= encoding < 3 && header_entries(headers)
                    == #[trigger] stealth_headers(
                    old(self).profile(),
                    old(self).identities()[old(self).cursor() as int],
                    language,
                    encoding,
                    dnt,
                ),
    {
        proof {
            use_type_invariant(&*self);
        }
        let mut headers = new_header_map();
        if self.config.rotate_user_agents {
            let ghost empty = header_entries(headers);
            set_header(
                &mut headers,
                "user-agent",
                self.user_agents[self.current_user_agent_index].as_str(),
            );
            proof {
                lemma_with_header_len(
                    empty,
                    "user-agent"@,
                    self.identities()[self.cursor() as int],
                );
            }
            self.current_user_agent_index = (self.current_user_agent_index + 1)
                % self.user_agents.len();
        }
        let ghost named = header_entries(headers);
        let ghost pairs = header_pairs(self.config.custom_headers@);
        let count = self.config.custom_headers.len();
        let mut i: usize = 0;
        proof {
            assert(pairs.subrange(0, 0) =~= Seq::empty());
        }
        while i < count
            invariant
                i <= count,
                count == self.config.custom_headers.len(),
                count <= MAX_CUSTOM_HEADERS,
                pairs == header_pairs(self.config.custom_headers@),
                named.len() <= 1,
                header_entries(headers) == with_headers(named, pairs.subrange(0, i as int)),
                header_entries(headers).dom().finite(),
                header_entries(headers).len() <= 1 + i,
            decreases count - i,
        {
            let ghost before = header_entries(headers);
            set_header(
                &mut headers,
                self.config.custom_headers[i].0.as_str(),
                self.config.custom_headers[i].1.as_str(),
            );
            proof {
                let seen = pairs.subrange(0, i + 1);
                assert(seen.drop_last() =~= pairs.subrange(0, i as int));
                assert(seen.last() == pairs[i as int]);
                lemma_with_header_len(before, pairs[i as int].0, pairs[i as int].1);
            }
            i = i + 1;
        }
        proof {
            assert(pairs.subrange(0, count as int) =~= pairs);
        }
        let ghost custom = header_entries(headers);
        let ghost identity = old(self).identities()[old(self).cursor() as int];
        proof {
            assert(named == if old(self).profile().rotate_user_agents {
                with_header(Map::empty(), "user-agent"@, identity)
            } else {
                Map::empty()
            });
            assert(custom == with_headers(named, header_pairs(old(self).profile().custom_headers@)));
        }
        if self.config.randomize_headers {
            self.add_random_headers(&mut headers);
            proof {
                let (language, encoding, dnt) = choose|language: int, encoding: int, dnt: bool|
                    0 <= language < 4 && 0 <= encoding < 3 && header_entries(headers)
                        == #[trigger] random_headers(custom, language, encoding, dnt);
                assert(header_entries(headers) == stealth_headers(
                    old(self).profile(),
                    identity,
                    language,
                    encoding,
                    dnt,
                ));
            }
        } else {
            assert(header_entries(headers) == stealth_headers(
                old(self).profile(),
                identity,
                0,
                0,
                false,
            ));
        }
        headers
    }
}

} // verus!
