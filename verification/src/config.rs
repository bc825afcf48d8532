//! What the user configures: the endpoint and the transaction, and how much
//! disguise is wanted.

use vstd::prelude::*;

verus! {

/// The endpoint that is used where none is given.
pub const DEFAULT_RPC_URL: &'static str = "https://api.mainnet-beta.solana.com";

/// The client identity that is used where none is given.
pub const DEFAULT_USER_AGENT: &'static str =
    "Mozilla/5.0 (Windows NT 10.0; Win64; x64) AppleWebKit/537.36";

/// One run's settings: where to send, what to sign with, what to send.
#[derive(Debug, Clone)]
pub struct Config {
    pub rpc_url: String,
    pub private_key: String,
    pub token_mint: String,
    pub amount: u64,
    pub stealth_mode: bool,
    pub user_agent: String,
    pub proxy: Option<String>,
}

impl Config {
    /// The settings to start from: the public endpoint, no key, no target, no
    /// amount, stealth on, no proxy.
    pub fn new() -> (config: Config)
        ensures
            config.rpc_url@ == DEFAULT_RPC_URL@,
            config.private_key@.len() == 0,
            config.token_mint@.len() == 0,
            config.amount == 0,
            config.stealth_mode,
            config.user_agent@ == DEFAULT_USER_AGENT@,
            config.proxy is None,
    {
        Config {
            rpc_url: DEFAULT_RPC_URL.to_owned(),
            private_key: String::new(),
            token_mint: String::new(),
            amount: 0,
            stealth_mode: true,
            user_agent: DEFAULT_USER_AGENT.to_owned(),
            proxy: None,
        }
    }

    /// The same settings with stealth switched on or off.
    pub fn with_stealth_mode(self, enabled: bool) -> (config: Config)
        ensures
            config == (Config { stealth_mode: enabled, ..self }),
    {
        let mut config = self;
        config.stealth_mode = enabled;
        config
    }

    /// The same settings with this proxy, or with none.
    pub fn with_proxy(self, proxy: Option<String>) -> (config: Config)
        ensures
            config == (Config { proxy: proxy, ..self }),
    {
        let mut config = self;
        config.proxy = proxy;
        config
    }
}

/// How a request is disguised and paced.
#[derive(Debug, Clone)]
pub struct StealthConfig {
    pub randomize_headers: bool,
    pub rotate_user_agents: bool,
    pub use_proxy_rotation: bool,
    /// The base delay before a request, in milliseconds; zero for none.
    pub delay_between_requests: u64,
    /// Kept for the record: no component retries a failed submission.
    pub max_retries: u32,
    pub avoid_bubble_map: bool,
    /// Headers to send with every request, by name and value, in this order.
    pub custom_headers: Vec<(String, String)>,
}

/// Names and values as plain text.
pub open spec fn header_pairs(headers: Seq<(String, String)>) -> Seq<(Seq<char>, Seq<char>)> {
    Seq::new(headers.len(), |i: int| (headers[i].0@, headers[i].1@))
}

/// The headers that a browser sends with a request for JSON.
pub open spec fn default_headers() -> Seq<(Seq<char>, Seq<char>)> {
    seq![
        ("Accept"@, "application/json"@),
        ("Accept-Language"@, "en-US,en;q=0.9"@),
        ("Accept-Encoding"@, "gzip, deflate, br"@),
        ("Connection"@, "keep-alive"@),
        ("Upgrade-Insecure-Requests"@, "1"@),
    ]
}

impl Default for StealthConfig {
    /// Everything on but proxy rotation, one second of base delay, three
    /// retries, and the headers of a browser.
    fn default() -> (config: StealthConfig)
        ensures
            config.randomize_headers,
            config.rotate_user_agents,
            !config.use_proxy_rotation,
            config.delay_between_requests == 1000,
            config.max_retries == 3,
            config.avoid_bubble_map,
            header_pairs(config.custom_headers@) == default_headers(),
            config.custom_headers@.len() == 5,
    {
        let mut custom_headers: Vec<(String, String)> = Vec::new();
        custom_headers.push(("Accept".to_owned(), "application/json".to_owned()));
        custom_headers.push(("Accept-Language".to_owned(), "en-US,en;q=0.9".to_owned()));
        custom_headers.push(("Accept-Encoding".to_owned(), "gzip, deflate, br".to_owned()));
        custom_headers.push(("Connection".to_owned(), "keep-alive".to_owned()));
        custom_headers.push(("Upgrade-Insecure-Requests".to_owned(), "1".to_owned()));
        proof {
            assert(header_pairs(custom_headers@) =~= default_headers());
        }
        StealthConfig {
            randomize_headers: true,
            rotate_user_agents: true,
            use_proxy_rotation: false,
            delay_between_requests: 1000,
            max_retries: 3,
            avoid_bubble_map: true,
            custom_headers,
        }
    }
}

} // verus!
