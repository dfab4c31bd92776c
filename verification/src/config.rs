//! Resolved configuration handed in at startup: the system preamble and
//! the API credential. Both are opaque values to the session runtime; the
//! process wrapper resolves them from the environment.
use vstd::prelude::*;

verus! {

#[derive(Debug, Clone)]
pub struct Config {
    preamble: String,
    anthropic_api_key: String,
}

pub struct SpecConfig {
    pub preamble: Seq<char>,
    pub anthropic_api_key: Seq<char>,
}

impl View for Config {
    type V = SpecConfig;

    closed spec fn view(&self) -> SpecConfig {
        SpecConfig { preamble: self.preamble@, anthropic_api_key: self.anthropic_api_key@ }
    }
}

impl Config {
    /// A configuration from already-resolved values.
    pub fn new(preamble: String, anthropic_api_key: String) -> (r: Config)
        ensures
            r@.preamble == preamble@,
            r@.anthropic_api_key == anthropic_api_key@,
    {
        Config { preamble, anthropic_api_key }
    }

    pub fn preamble(&self) -> (r: &str)
        ensures
            r@ == self@.preamble,
    {
        self.preamble.as_str()
    }

    pub fn anthropic_api_key(&self) -> (r: &str)
        ensures
            r@ == self@.anthropic_api_key,
    {
        self.anthropic_api_key.as_str()
    }
}

} // verus!
