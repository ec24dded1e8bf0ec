//! What the request handlers are given at startup, fixed for the process's
//! lifetime.

use vstd::prelude::*;

verus! {

/// The directory the saves are read from, and the URL under which this
/// server is reached from outside.
#[derive(Debug)]
pub struct ServerConfig {
    pub save_dir: String,
    pub base_url: String,
}

} // verus!
