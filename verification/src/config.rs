//! Endpoint configuration: where the feed lives and which symbols to follow.

use vstd::prelude::*;
use vstd::string::*;

verus! {

/// The feed endpoint and the symbols to subscribe to on it.
pub struct Config {
    pub server_address: String,
    pub symbols: Vec<String>,
}

impl Config {
    /// The symbols of a configuration, each as its sequence of characters.
    pub open spec fn symbol_views(self) -> Seq<Seq<char>> {
        Seq::new(self.symbols@.len(), |i: int| self.symbols@[i]@)
    }

    /// The development default: a local endpoint and two equities.
    pub fn new() -> (config: Self)
        ensures
            config.server_address@ == "ws://localhost:8080"@,
            config.symbol_views() == seq!["AAPL"@, "GOOGL"@],
    {
        let mut symbols: Vec<String> = Vec::new();
        symbols.push(String::from_str("AAPL"));
        symbols.push(String::from_str("GOOGL"));
        let config = Config { server_address: String::from_str("ws://localhost:8080"), symbols };
        assert(config.symbol_views() =~= seq!["AAPL"@, "GOOGL"@]);
        config
    }
}

} // verus!
