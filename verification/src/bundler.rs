//! The bundler: one submission from pacing to result, and a batch of them
//! that goes on past the items that fail.
//!
//! The bundler sends nothing and never sleeps. It says what to do next, and is
//! told what came of it.

use crate::base58::{base58_bytes, base58_text};
use crate::config::{default_headers, header_pairs, Config, StealthConfig};
use crate::error::{ConfigError, SubmitError, SubmitFailure};
use crate::headers::header_entries;
use crate::intent::TransactionIntent;
use crate::json::{
    items_view, lemma_array_view, members_map, members_view, FieldMap, Json, JsonValue,
};
use crate::random::{random_u64, random_u64_in};
use crate::signer::{decode_key_material, derive_address, key_material, signer_address};
use crate::stealth::{
    default_identities, disguised, next_cursor, paced_delay, perturbed, rpc_envelope,
    stealth_headers, StealthEngine, AMOUNT_SPREAD, DELAY_JITTER,
};
use crate::submit::{interpret_reply, reply_meaning, TransportReply};
use reqwest::header::HeaderMap;
use vstd::prelude::*;

verus! {

/// What came of one submission.
#[derive(Debug)]
pub struct BundleResult {
    pub transaction_signature: String,
    /// Always empty: a batch identifier would mark the transaction.
    pub bundle_id: Option<String>,
    pub stealth_id: String,
    /// The amount as it was sent.
    pub amount: u64,
    pub token_mint: String,
}

/// What a `BundleResult` says.
pub ghost struct BundleRecord {
    pub transaction_signature: Seq<char>,
    pub bundle_id: Option<Seq<char>>,
    pub stealth_id: Seq<char>,
    pub amount: u64,
    pub token_mint: Seq<char>,
}

impl View for BundleResult {
    type V = BundleRecord;

    open spec fn view(&self) -> BundleRecord {
        BundleRecord {
            transaction_signature: self.transaction_signature@,
            bundle_id: match self.bundle_id {
                Some(id) => Some(id@),
                None => None,
            },
            stealth_id: self.stealth_id@,
            amount: self.amount,
            token_mint: self.token_mint@,
        }
    }
}

/// A transaction that is ready to be sent: its token, its amount as it is
/// sent, and its fields.
#[derive(Debug)]
pub struct PendingBundle {
    pub stealth_id: String,
    pub amount: u64,
    pub transaction_data: TransactionIntent,
}

/// A request as the transport is to send it.
pub struct OutboundRequest {
    pub headers: HeaderMap,
    pub payload: Json,
}

/// Whether a profile is the one that a bundler starts with.
pub open spec fn is_default_profile(profile: StealthConfig) -> bool {
    &&& profile.randomize_headers
    &&& profile.rotate_user_agents
    &&& !profile.use_proxy_rotation
    &&& profile.delay_between_requests == 1000
    &&& profile.max_retries == 3
    &&& profile.avoid_bubble_map
    &&& header_pairs(profile.custom_headers@) == default_headers()
}

/// The address that key material signs with, or what is wrong with it.
pub open spec fn sender_of(private_key: Seq<char>) -> Result<Seq<char>, ConfigError> {
    match key_material(private_key) {
        None => Err(ConfigError::MalformedKey),
        Some(key_bytes) => match signer_address(key_bytes) {
            None => Err(ConfigError::InvalidKeypair),
            Some(address) => Ok(address),
        },
    }
}

/// The figures that tell which disguises are on.
pub open spec fn stealth_stats(
    stealth_mode: bool,
    avoid_bubble_map: bool,
    rotate_user_agents: bool,
    randomize_headers: bool,
) -> Map<Seq<char>, JsonValue> {
    Map::<Seq<char>, JsonValue>::empty().insert(
        "stealth_mode_enabled"@,
        JsonValue::Bool(stealth_mode),
    ).insert("bubble_map_avoidance"@, JsonValue::Bool(avoid_bubble_map)).insert(
        "user_agent_rotation"@,
        JsonValue::Bool(rotate_user_agents),
    ).insert("header_randomization"@, JsonValue::Bool(randomize_headers))
}

/// The fields of a transaction before any disguise.
pub open spec fn transaction_fields(
    sender: Seq<char>,
    recipient: Seq<char>,
    amount: u64,
    stealth_id: Seq<char>,
    nonce: u64,
    gas_price: u64,
) -> Map<Seq<char>, JsonValue> {
    Map::<Seq<char>, JsonValue>::empty().insert("from"@, JsonValue::Text(sender)).insert(
        "to"@,
        JsonValue::Text(recipient),
    ).insert("amount"@, JsonValue::Integer(amount as int)).insert(
        "stealth_id"@,
        JsonValue::Text(stealth_id),
    ).insert("nonce"@, JsonValue::Integer(nonce as int)).insert(
        "gas_price"@,
        JsonValue::Integer(gas_price as int),
    )
}

/// The call that submits one transaction with the given fields.
pub open spec fn send_transaction_call(id: int, fields: Seq<(Seq<char>, JsonValue)>) -> JsonValue {
    rpc_envelope(id, "sendTransaction"@, JsonValue::Array(seq![JsonValue::Object(fields)]))
}

/// What came of a submission, given what the reply means.
pub open spec fn bundle_outcome(
    stealth_id: Seq<char>,
    amount: u64,
    token_mint: Seq<char>,
    meaning: Result<Seq<char>, SubmitFailure>,
) -> Result<BundleRecord, SubmitFailure> {
    match meaning {
        Ok(signature) => Ok(
            BundleRecord {
                transaction_signature: signature,
                bundle_id: None,
                stealth_id,
                amount,
                token_mint,
            },
        ),
        Err(failure) => Err(failure),
    }
}

/// A result or an error, by what they say.
pub open spec fn bundle_view(outcome: Result<BundleResult, SubmitError>) -> Result<
    BundleRecord,
    SubmitFailure,
> {
    match outcome {
        Ok(result) => Ok(result@),
        Err(error) => Err(error@),
    }
}

/// Where a run of submissions stands.
#[derive(Debug, Clone, Copy, PartialEq, Eq, Structural)]
pub enum RunStage {
    /// Nothing was done yet.
    Ready,
    /// The wait before a submission is on.
    Pacing,
    /// A request is out, and its reply is awaited.
    Submitted,
    /// The wait between two items is on.
    Resting,
    /// There is nothing more to do.
    Finished,
}

/// What the driver of a run reports.
#[derive(Debug)]
pub enum BundleEvent {
    /// The run is to begin.
    Started,
    /// The wait that was asked for is over.
    Elapsed,
    /// The request that was handed out was sent, and this came of it.
    Replied(TransportReply),
}

/// What the driver of a run is to do next.
pub enum BundleAction {
    /// Wait for so many milliseconds, then report `Elapsed`.
    Sleep(u64),
    /// Send this request, then report what came of it.
    Send(OutboundRequest),
    /// Nothing: the run is over.
    Finish,
}

/// A run of `count` submissions, one after the other.
///
/// An item that fails is recorded and left behind: it is not tried again, and
/// the run goes on with the next one.
#[derive(Debug)]
pub struct BatchRun {
    /// How many submissions the run is to make.
    pub count: usize,
    /// How many of them have come to an end.
    pub completed: usize,
    pub stage: RunStage,
    /// The token and the amount of the transaction whose reply is awaited.
    pub pending: Option<(String, u64)>,
    /// The submissions that succeeded, in the order in which they were made.
    pub results: Vec<BundleResult>,
    /// The errors of those that failed, in the order in which they were made.
    pub failures: Vec<SubmitError>,
}

/// What each result of a list says.
pub open spec fn results_view(results: Seq<BundleResult>) -> Seq<BundleRecord> {
    Seq::new(results.len(), |i: int| results[i]@)
}

/// What each error of a list says.
pub open spec fn failures_view(failures: Seq<SubmitError>) -> Seq<SubmitFailure> {
    Seq::new(failures.len(), |i: int| failures[i]@)
}

/// The stage that follows `stage` on `event`, where `awaited` tells whether
/// the run holds a transaction whose reply it awaits, `more` whether an item is
/// left to submit, and `paced` whether the profile asks for delays. An event
/// that the stage does not wait for ends the run.
pub open spec fn next_stage(
    stage: RunStage,
    event: BundleEvent,
    awaited: bool,
    more: bool,
    paced: bool,
) -> RunStage {
    let begun = if !more {
        RunStage::Finished
    } else if paced {
        RunStage::Pacing
    } else {
        RunStage::Submitted
    };
    match (stage, event) {
        (RunStage::Ready, BundleEvent::Started) => begun,
        (RunStage::Resting, BundleEvent::Elapsed) => begun,
        (RunStage::Pacing, BundleEvent::Elapsed) => if more {
            RunStage::Submitted
        } else {
            RunStage::Finished
        },
        (RunStage::Submitted, BundleEvent::Replied(_)) => if !more || !awaited {
            RunStage::Finished
        } else if paced {
            RunStage::Resting
        } else {
            RunStage::Submitted
        },
        _ => RunStage::Finished,
    }
}

impl BatchRun {
    /// What holds of a run from its start to its end: no more items have come
    /// to an end than the run has, each of them is recorded once, and a reply
    /// is awaited only for an item of the run.
    pub open spec fn wf(self) -> bool {
        &&& self.completed <= self.count
        &&& self.results.len() + self.failures.len() == self.completed
        &&& self.stage == RunStage::Submitted ==> self.pending is Some && self.completed
            < self.count
        &&& (self.stage == RunStage::Pacing || self.stage == RunStage::Resting) ==> self.completed
            < self.count
    }

    /// The token of the transaction whose reply is awaited.
    pub open spec fn awaited_token(self) -> Seq<char> {
        match self.pending {
            Some(pending) => pending.0@,
            None => Seq::empty(),
        }
    }

    /// The amount of the transaction whose reply is awaited.
    pub open spec fn awaited_amount(self) -> u64 {
        match self.pending {
            Some(pending) => pending.1,
            None => 0,
        }
    }

    /// Whether this step takes a reply in: a reply is awaited, for an item of
    /// the run, and the event brings one.
    pub open spec fn takes_reply(self, event: BundleEvent) -> bool {
        &&& self.stage == RunStage::Submitted
        &&& event is Replied
        &&& self.pending is Some
        &&& self.completed < self.count
    }

    /// A run of `count` submissions, of which none is made yet.
    pub fn new(count: usize) -> (run: BatchRun)
        ensures
            run.wf(),
            run.count == count,
            run.completed == 0,
            run.stage == RunStage::Ready,
            run.pending is None,
            run.results@.len() == 0,
            run.failures@.len() == 0,
    {
        BatchRun {
            count,
            completed: 0,
            stage: RunStage::Ready,
            pending: None,
            results: Vec::new(),
            failures: Vec::new(),
        }
    }

    /// Whether the run is over.
    pub fn is_finished(&self) -> (finished: bool)
        ensures
            finished == (self.stage == RunStage::Finished),
    {
        self.stage == RunStage::Finished
    }

    /// The report of the run: the submissions that succeeded, in their order.
    pub fn into_results(self) -> (results: Vec<BundleResult>)
        ensures
            results == self.results,
    {
        self.results
    }
}

/// A report never holds more entries than the run has items.
pub proof fn lemma_report_bounded(run: BatchRun)
    requires
        run.wf(),
    ensures
        run.results.len() <= run.count,
        run.failures.len() <= run.count,
{
}

/// A failed item does not end the run: while an item is left, a reply leads
/// to the next item whatever it means.
pub proof fn lemma_failure_goes_on(reply: TransportReply, paced: bool)
    ensures
        next_stage(RunStage::Submitted, BundleEvent::Replied(reply), true, true, paced)
            != RunStage::Finished,
{
}

/// Whether a token, an amount and fields are those of a transaction that
/// this bundler may make ready: the token is 32 bytes in base58; the amount
/// is the configured one, moved where cluster avoidance is on; the fields are
/// those of the transaction, disguised where cluster avoidance is on.
pub open spec fn is_pending(
    bundler: StealthBundler,
    stealth_id: Seq<char>,
    amount: u64,
    fields: Map<Seq<char>, JsonValue>,
) -> bool {
    let avoid = bundler.engine().profile().avoid_bubble_map;
    &&& exists|bytes: Seq<u8>|
        bytes.len() == 32 && stealth_id == #[trigger] base58_text(bytes) && base58_bytes(
            stealth_id,
        ) == Some(bytes)
    &&& !avoid ==> amount == bundler.settings().amount
    &&& avoid ==> exists|variation: int|
        -AMOUNT_SPREAD <= variation < AMOUNT_SPREAD && amount == #[trigger] perturbed(
            bundler.settings().amount,
            variation,
        )
    &&& !avoid ==> exists|nonce: u64, gas_price: u64|
        5000 <= gas_price < 10000 && fields == #[trigger] transaction_fields(
            bundler.sender(),
            bundler.settings().token_mint@,
            amount,
            stealth_id,
            nonce,
            gas_price,
        )
    &&& avoid ==> exists|nonce: u64, gas_price: u64, draw: u64, millis: int|
        5000 <= gas_price < 10000 && 0 <= millis && fields == #[trigger] disguised(
            transaction_fields(
                bundler.sender(),
                bundler.settings().token_mint@,
                amount,
                stealth_id,
                nonce,
                gas_price,
            ),
            draw,
            millis,
        )
}

/// Whether two states of a bundler differ in nothing but the cursor.
pub open spec fn same_setup(before: StealthBundler, after: StealthBundler) -> bool {
    &&& after.settings() == before.settings()
    &&& after.sender() == before.sender()
    &&& after.engine().profile() == before.engine().profile()
    &&& after.engine().identities() == before.engine().identities()
}

/// Whether a request is one that the bundler in the state `before` may make
/// for a transaction with the given fields, and `after` the state it is left in:
/// the headers are those of the identity under the cursor, the payload is the
/// `sendTransaction` call, and the cursor has moved on where identities rotate.
pub open spec fn is_request_of(
    before: StealthBundler,
    after: StealthBundler,
    headers: Map<Seq<u8>, Seq<u8>>,
    payload: JsonValue,
    fields: Seq<(Seq<char>, JsonValue)>,
) -> bool {
    &&& same_setup(before, after)
    &&& before.engine().cursor() < before.engine().identities().len()
    &&& after.engine().cursor() == if before.engine().profile().rotate_user_agents {
        next_cursor(before.engine().cursor(), before.engine().identities().len())
    } else {
        before.engine().cursor()
    }
    &&& exists|language: int, encoding: int, dnt: bool|
        0 <= language < 4 && 0 <= encoding < 3 && headers == #[trigger] stealth_headers(
            before.engine().profile(),
            before.engine().identities()[before.engine().cursor() as int],
            language,
            encoding,
            dnt,
        )
    &&& exists|id: int| 1 <= id < 1_000_000 && payload == #[trigger] send_transaction_call(id, fields)
}

/// Whether `action` is what a step may hand out that leaves the bundler in
/// the state `after` and the run as `run`: nothing where the run is over; a
/// wait of the profile's base delay and less than half a second more where
/// a wait is on; where a reply is awaited, a request for a transaction that
/// the bundler made ready, whose token and amount the run holds.
pub open spec fn hands_out(
    before: StealthBundler,
    after: StealthBundler,
    run: BatchRun,
    action: BundleAction,
) -> bool {
    match action {
        BundleAction::Finish => run.stage == RunStage::Finished && after == before,
        BundleAction::Sleep(delay) => {
            &&& run.stage == RunStage::Pacing || run.stage == RunStage::Resting
            &&& after == before
            &&& delay > 0
            &&& exists|jitter: int|
                0 <= jitter < DELAY_JITTER && delay == #[trigger] paced_delay(
                    before.engine().profile().delay_between_requests,
                    jitter,
                )
        },
        BundleAction::Send(request) => {
            &&& run.stage == RunStage::Submitted
            &&& run.pending is Some
            &&& exists|fields: Seq<(Seq<char>, JsonValue)>|
                #![trigger members_map(fields)]
                {
                    &&& is_pending(
                        before,
                        run.awaited_token(),
                        run.awaited_amount(),
                        members_map(fields),
                    )
                    &&& is_request_of(
                        before,
                        after,
                        header_entries(request.headers),
                        request.payload@,
                        fields,
                    )
                }
        },
    }
}

/// The bundler: the settings of the run, the stealth engine, and the address
/// that the transactions come from.
pub struct StealthBundler {
    config: Config,
    stealth_engine: StealthEngine,
    sender: String,
}

impl StealthBundler {
    /// The settings of the run.
    pub closed spec fn settings(self) -> Config {
        self.config
    }

    /// The stealth engine.
    pub closed spec fn engine(self) -> StealthEngine {
        self.stealth_engine
    }

    /// The address that the transactions come from.
    pub closed spec fn sender(self) -> Seq<char> {
        self.sender@
    }

    /// A bundler for transactions from `sender`, with the stealth profile
    /// that every bundler starts with.
    pub fn with_sender(config: Config, sender: String) -> (bundler: StealthBundler)
        ensures
            bundler.settings() == config,
            bundler.sender() == sender@,
            is_default_profile(bundler.engine().profile()),
            bundler.engine().identities() == default_identities(),
            bundler.engine().cursor() == 0,
    {
        let profile = StealthConfig::default();
        proof {
            assert(header_pairs(profile.custom_headers@).len() == 5);
        }
        let stealth_engine = StealthEngine::new(profile);
        StealthBundler { config, stealth_engine, sender }
    }

    /// A bundler for the given settings. The private key is read as a JSON
    /// array of bytes where it begins with a square bracket, as base58 text
    /// where not; the address of the key pair that it holds is the sender.
    pub fn new(config: Config) -> (built: Result<StealthBundler, ConfigError>)
        ensures
            match built {
                Ok(bundler) => {
                    &&& sender_of(config.private_key@) == Ok::<Seq<char>, ConfigError>(
                        bundler.sender(),
                    )
                    &&& bundler.settings() == config
                    &&& is_default_profile(bundler.engine().profile())
                    &&& bundler.engine().identities() == default_identities()
                    &&& bundler.engine().cursor() == 0
                },
                Err(error) => sender_of(config.private_key@) == Err::<Seq<char>, ConfigError>(
                    error,
                ),
            },
    {
        let key_bytes = match decode_key_material(config.private_key.as_str()) {
            Some(key_bytes) => key_bytes,
            None => {
                return Err(ConfigError::MalformedKey);
            },
        };
        let sender = match derive_address(&key_bytes) {
            Some(sender) => sender,
            None => {
                return Err(ConfigError::InvalidKeypair);
            },
        };
        Ok(StealthBundler::with_sender(config, sender))
    }

    /// The settings of the run.
    pub fn config(&self) -> (config: &Config)
        ensures
            *config == self.settings(),
    {
        &self.config
    }

    /// The address that the transactions come from.
    pub fn sender_address(&self) -> (sender: &str)
        ensures
            sender@ == self.sender(),
    {
        self.sender.as_str()
    }

    /// Which disguises are on.
    pub fn get_stealth_stats(&self) -> (stats: FieldMap)
        ensures
            stats@ == stealth_stats(
                self.settings().stealth_mode,
                self.engine().profile().avoid_bubble_map,
                self.engine().profile().rotate_user_agents,
                self.engine().profile().randomize_headers,
            ),
    {
        let profile = self.stealth_engine.config();
        let mut stats = FieldMap::new();
        stats.insert("stealth_mode_enabled".to_owned(), Json::Bool(self.config.stealth_mode));
        stats.insert("bubble_map_avoidance".to_owned(), Json::Bool(profile.avoid_bubble_map));
        stats.insert("user_agent_rotation".to_owned(), Json::Bool(profile.rotate_user_agents));
        stats.insert("header_randomization".to_owned(), Json::Bool(profile.randomize_headers));
        stats
    }

    /// The intent of a transaction with the nonce and the gas price that were drawn.
    pub fn transaction_data_with(
        &self,
        stealth_id: &str,
        amount: u64,
        nonce: u64,
        gas_price: u64,
    ) -> (data: TransactionIntent)
        ensures
            data@ == transaction_fields(
                self.sender(),
                self.settings().token_mint@,
                amount,
                stealth_id@,
                nonce,
                gas_price,
            ),
            data.transaction_tag is None,
            data.timestamp is None,
            data.extra@ == (Map::<Seq<char>, JsonValue>::empty()),
    {
        let mut data = TransactionIntent::new();
        data.sender = Some(self.sender.clone());
        data.recipient = Some(self.config.token_mint.clone());
        data.amount = Some(amount);
        data.stealth_id = Some(stealth_id.to_owned());
        data.nonce = Some(nonce);
        data.gas_price = Some(gas_price);
        data
    }

    /// The intent of a transaction: sender, recipient, amount and token, with
    /// a random nonce and a random gas price between 5000 and 9999.
    pub fn create_stealth_transaction_data(&self, stealth_id: &str, amount: u64) -> (data:
        TransactionIntent)
        ensures
            exists|nonce: u64, gas_price: u64|
                5000 <= gas_price < 10000 && data@ == #[trigger] transaction_fields(
                    self.sender(),
                    self.settings().token_mint@,
                    amount,
                    stealth_id@,
                    nonce,
                    gas_price,
                ),
    {
        let nonce = random_u64();
        let gas_price = random_u64_in(5000, 10000);
        let data = self.transaction_data_with(stealth_id, amount, nonce, gas_price);
        assert(data@ == transaction_fields(
            self.sender(),
            self.settings().token_mint@,
            amount,
            stealth_id@,
            nonce,
            gas_price,
        ));
        data
    }
    /// How long to wait before the next submission, in milliseconds; zero for
    /// no wait at all.
    pub fn pacing_delay(&self) -> (delay: u64)
        ensures
            self.engine().profile().delay_between_requests == 0 ==> delay == 0,
            exists|jitter: int|
                0 <= jitter < DELAY_JITTER && delay == #[trigger] paced_delay(
                    self.engine().profile().delay_between_requests,
                    jitter,
                ),
    {
        let delay = self.stealth_engine.stealth_delay();
        proof {
            let jitter = choose|jitter: int|
                0 <= jitter < DELAY_JITTER && delay == #[trigger] paced_delay(
                    self.stealth_engine.profile().delay_between_requests,
                    jitter,
                );
            assert(delay == paced_delay(self.engine().profile().delay_between_requests, jitter));
        }
        delay
    }

    /// Makes the next transaction ready: a fresh token, the amount as it is
    /// sent, and the fields, disguised where cluster avoidance is on.
    pub fn prepare_bundle(&self) -> (pending: PendingBundle)
        ensures
            is_pending(*self, pending.stealth_id@, pending.amount, pending.transaction_data@),
    {
        let stealth_id = self.stealth_engine.generate_stealth_transaction_id();
        let amount = self.stealth_engine.obfuscate_amount(self.config.amount);
        let mut transaction_data = self.create_stealth_transaction_data(
            stealth_id.as_str(),
            amount,
        );
        let ghost plain = transaction_data@;
        let ghost (nonce, gas_price) = choose|nonce: u64, gas_price: u64|
            5000 <= gas_price < 10000 && plain == #[trigger] transaction_fields(
                self.sender(),
                self.settings().token_mint@,
                amount,
                stealth_id@,
                nonce,
                gas_price,
            );
        self.stealth_engine.avoid_bubble_map_detection(&mut transaction_data);
        let ghost (draw, millis) = choose|draw: u64, millis: int|
            0 <= millis && transaction_data@ == #[trigger] disguised(plain, draw, millis);
        let pending = PendingBundle { stealth_id, amount, transaction_data };
        proof {
            let fields = transaction_fields(
                self.sender(),
                self.settings().token_mint@,
                pending.amount,
                pending.stealth_id@,
                nonce,
                gas_price,
            );
            assert(plain == fields);
            if self.engine().profile().avoid_bubble_map {
                assert(pending.transaction_data@ == disguised(fields, draw, millis));
            } else {
                assert(pending.transaction_data@ == fields);
            }
        }
        pending
    }

    /// Makes the request for a transaction ready: the header set of the next
    /// identity, and the `sendTransaction` call under a random request number.
    /// Where identities rotate, the cursor moves on.
    pub fn prepare_request(&mut self, transaction_data: TransactionIntent) -> (request:
        OutboundRequest)
        ensures
            exists|fields: Seq<(Seq<char>, JsonValue)>|
                #![trigger members_map(fields)]
                members_map(fields) == transaction_data@ && is_request_of(
                    *old(self),
                    *final(self),
                    header_entries(request.headers),
                    request.payload@,
                    fields,
                ),
    {
        let headers = self.stealth_engine.create_stealth_headers();
        let sent = transaction_data.into_fields();
        let ghost fields = members_view(sent.entries@);
        let mut params: Vec<Json> = Vec::new();
        params.push(sent.into_json());
        proof {
            lemma_array_view(params);
            assert(items_view(params@) =~= seq![JsonValue::Object(fields)]);
        }
        let payload = self.stealth_engine.create_stealth_rpc_payload(
            "sendTransaction",
            Json::Array(params),
        );
        proof {
            let id = choose|id: int|
                1 <= id < 1_000_000 && payload@ == #[trigger] rpc_envelope(
                    id,
                    "sendTransaction"@,
                    JsonValue::Array(seq![JsonValue::Object(fields)]),
                );
            assert(payload@ == send_transaction_call(id, fields));
            assert(members_map(fields) == transaction_data@);
        }
        OutboundRequest { headers, payload }
    }

    /// What came of a submission: the result with the signature that the reply
    /// gives, or the error that the reply means.
    pub fn finish_bundle(&self, stealth_id: String, amount: u64, reply: TransportReply) -> (outcome:
        Result<BundleResult, SubmitError>)
        ensures
            bundle_view(outcome) == bundle_outcome(
                stealth_id@,
                amount,
                self.settings().token_mint@,
                reply_meaning(reply),
            ),
    {
        match interpret_reply(reply) {
            Ok(signature) => Ok(
                BundleResult {
                    transaction_signature: signature,
                    bundle_id: None,
                    stealth_id,
                    amount,
                    token_mint: self.config.token_mint.clone(),
                },
            ),
            Err(error) => Err(error),
        }
    }
    /// Ends a run on an event that it does not wait for.
    fn abort(run: &mut BatchRun) -> (action: BundleAction)
        ensures
            action is Finish,
            *final(run) == (BatchRun { stage: RunStage::Finished, ..*old(run) }),
    {
        run.stage = RunStage::Finished;
        BundleAction::Finish
    }

    /// Makes the next transaction and its request ready, and hands the request out.
    fn submit_item(&mut self, run: &mut BatchRun) -> (action: BundleAction)
        requires
            old(run).completed < old(run).count,
        ensures
            final(run).stage == RunStage::Submitted,
            final(run).count == old(run).count,
            final(run).completed == old(run).completed,
            final(run).results == old(run).results,
            final(run).failures == old(run).failures,
            hands_out(*old(self), *final(self), *final(run), action),
    {
        let pending = self.prepare_bundle();
        let ghost said = pending.transaction_data@;
        let ghost before = *self;
        let request = self.prepare_request(pending.transaction_data);
        run.pending = Some((pending.stealth_id, pending.amount));
        run.stage = RunStage::Submitted;
        proof {
            let fields = choose|fields: Seq<(Seq<char>, JsonValue)>|
                #![trigger members_map(fields)]
                members_map(fields) == said && is_request_of(
                    before,
                    *self,
                    header_entries(request.headers),
                    request.payload@,
                    fields,
                );
            assert(is_pending(before, run.awaited_token(), run.awaited_amount(), members_map(fields)));
        }
        BundleAction::Send(request)
    }

    /// Begins the next item: with its wait where the profile asks for delays,
    /// with its request where not. Without an item left, the run is over.
    fn begin_item(&mut self, run: &mut BatchRun) -> (action: BundleAction)
        ensures
            final(run).stage == next_stage(
                RunStage::Ready,
                BundleEvent::Started,
                false,
                old(run).completed < old(run).count,
                old(self).engine().profile().delay_between_requests > 0,
            ),
            final(run).count == old(run).count,
            final(run).completed == old(run).completed,
            final(run).results == old(run).results,
            final(run).failures == old(run).failures,
            hands_out(*old(self), *final(self), *final(run), action),
    {
        if run.completed >= run.count {
            run.stage = RunStage::Finished;
            return BundleAction::Finish;
        }
        let delay = self.pacing_delay();
        if delay > 0 {
            run.stage = RunStage::Pacing;
            return BundleAction::Sleep(delay);
        }
        self.submit_item(run)
    }

    /// One step of a run: takes in what the driver reports, and says what it
    /// is to do next.
    ///
    /// On `Started` the first item begins. Each item begins with the wait
    /// before its submission, where the profile asks for delays, and goes on
    /// with its request. A reply ends the item: a signature adds a result to
    /// the report, anything else adds an error to the failures, and the run
    /// goes on either way, after the wait between two items. An event that
    /// the run does not wait for ends it.
    pub fn step(&mut self, run: &mut BatchRun, event: BundleEvent) -> (action: BundleAction)
        ensures
            same_setup(*old(self), *final(self)),
            hands_out(*old(self), *final(self), *final(run), action),
            final(run).count == old(run).count,
            old(run).wf() ==> final(run).wf(),
            final(run).stage == next_stage(
                old(run).stage,
                event,
                old(run).pending is Some,
                final(run).completed < final(run).count,
                old(self).engine().profile().delay_between_requests > 0,
            ),
            !old(run).takes_reply(event) ==> {
                &&& final(run).completed == old(run).completed
                &&& final(run).results == old(run).results
                &&& final(run).failures == old(run).failures
            },
            old(run).takes_reply(event) ==> {
                &&& final(run).completed == old(run).completed + 1
                &&& match bundle_outcome(
                    old(run).awaited_token(),
                    old(run).awaited_amount(),
                    old(self).settings().token_mint@,
                    reply_meaning(event->Replied_0),
                ) {
                    Ok(record) => {
                        &&& results_view(final(run).results@) == results_view(
                            old(run).results@,
                        ).push(record)
                        &&& final(run).failures == old(run).failures
                    },
                    Err(failure) => {
                        &&& failures_view(final(run).failures@) == failures_view(
                            old(run).failures@,
                        ).push(failure)
                        &&& final(run).results == old(run).results
                    },
                }
            },
    {
        match event {
            BundleEvent::Started => {
                if run.stage == RunStage::Ready {
                    self.begin_item(run)
                } else {
                    StealthBundler::abort(run)
                }
            },
            BundleEvent::Elapsed => {
                if run.stage == RunStage::Resting {
                    self.begin_item(run)
                } else if run.stage == RunStage::Pacing && run.completed < run.count {
                    self.submit_item(run)
                } else {
                    StealthBundler::abort(run)
                }
            },
            BundleEvent::Replied(reply) => {
                if !(run.stage == RunStage::Submitted && run.completed < run.count) {
                    return StealthBundler::abort(run);
                }
                let (stealth_id, amount) = match run.pending.take() {
                    Some(pending) => pending,
                    None => {
                        return StealthBundler::abort(run);
                    },
                };
                let ghost results_before = results_view(run.results@);
                let ghost failures_before = failures_view(run.failures@);
                match self.finish_bundle(stealth_id, amount, reply) {
                    Ok(result) => {
                        run.results.push(result);
                        proof {
                            assert(results_view(run.results@) =~= results_before.push(result@));
                        }
                    },
                    Err(error) => {
                        run.failures.push(error);
                        proof {
                            assert(failures_view(run.failures@) =~= failures_before.push(error@));
                        }
                    },
                }
                run.completed = run.completed + 1;
                if run.completed >= run.count {
                    run.stage = RunStage::Finished;
                    return BundleAction::Finish;
                }
                let delay = self.pacing_delay();
                if delay > 0 {
                    run.stage = RunStage::Resting;
                    return BundleAction::Sleep(delay);
                }
                self.submit_item(run)
            },
        }
    }
    /// Begins a run of `count` submissions: the run, and what the driver is to
    /// do first. The driver goes on with `step` until the run is over; the
    /// report is then what `into_results` gives, with one entry for each item
    /// that succeeded, in their order.
    pub fn execute_multiple_bundles(&mut self, count: usize) -> (begun: (BatchRun, BundleAction))
        ensures
            same_setup(*old(self), *final(self)),
            hands_out(*old(self), *final(self), begun.0, begun.1),
            begun.0.wf(),
            begun.0.count == count,
            begun.0.completed == 0,
            begun.0.results@.len() == 0,
            begun.0.failures@.len() == 0,
            begun.0.stage == next_stage(
                RunStage::Ready,
                BundleEvent::Started,
                false,
                0 < count,
                old(self).engine().profile().delay_between_requests > 0,
            ),
    {
        let mut run = BatchRun::new(count);
        let action = self.step(&mut run, BundleEvent::Started);
        (run, action)
    }

    /// Begins a single submission: a run of one item, and what the driver is
    /// to do first. When the run is over it holds either the result or the
    /// error of the submission.
    pub fn execute_bundle(&mut self) -> (begun: (BatchRun, BundleAction))
        ensures
            same_setup(*old(self), *final(self)),
            hands_out(*old(self), *final(self), begun.0, begun.1),
            begun.0.wf(),
            begun.0.count == 1,
            begun.0.completed == 0,
            begun.0.results@.len() == 0,
            begun.0.failures@.len() == 0,
            begun.0.stage == if old(self).engine().profile().delay_between_requests > 0 {
                RunStage::Pacing
            } else {
                RunStage::Submitted
            },
    {
        self.execute_multiple_bundles(1)
    }
}

} // verus!
