//! The settings of a running service.

use vstd::prelude::*;

verus! {

/// All settings: those of the listener and those of the store.
pub struct Config {
    pub api: Api,
    pub db: Db,
}

/// Where the service listens, and with how many workers.
#[derive(Clone)]
pub struct Api {
    pub bind: String,
    pub workers: usize,
}

/// Where the store is reached, and with how many connections at most.
#[derive(Clone)]
pub struct Db {
    pub url: String,
    pub max_connections: u32,
}

} // verus!
