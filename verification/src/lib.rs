//! A bundler that submits transactions one by one and makes each of them look
//! like an ordinary client's: rotating identities, randomized headers, paced
//! requests, perturbed amounts.
//!
//! The library decides and computes; it neither sends nor sleeps. A driver
//! performs what `StealthBundler::step` hands out and reports what came of it.

use vstd::prelude::*;

pub mod base58;
pub mod bundler;
pub mod clock;
pub mod config;
pub mod error;
pub mod headers;
pub mod intent;
pub mod json;
pub mod random;
pub mod signer;
pub mod stealth;
pub mod submit;
pub mod text;
pub mod utils;

pub use bundler::{BundleResult, StealthBundler};
pub use config::{Config, StealthConfig};
pub use stealth::StealthEngine;

verus! {

/// The name of the library.
pub const NAME: &'static str = "pumpfun_bundler_stealth";

/// The version of the library.
pub const VERSION: &'static str = "0.1.0";

/// The release of the toolchain that the library is written for.
pub const RUST_VERSION: &'static str = "1.75.0";

/// What the library says of itself, by name and value.
pub open spec fn library_info() -> Seq<(Seq<char>, Seq<char>)> {
    seq![("name"@, NAME@), ("version"@, VERSION@), ("rust_version"@, RUST_VERSION@)]
}

/// The name of the library, its version, and the toolchain it is written for.
pub fn get_info() -> (info: Vec<(String, String)>)
    ensures
        config::header_pairs(info@) == library_info(),
{
    let mut info: Vec<(String, String)> = Vec::new();
    info.push(("name".to_owned(), NAME.to_owned()));
    info.push(("version".to_owned(), VERSION.to_owned()));
    info.push(("rust_version".to_owned(), RUST_VERSION.to_owned()));
    proof {
        assert(config::header_pairs(info@) =~= library_info());
    }
    info
}

} // verus!
