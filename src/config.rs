use vstd::prelude::*;

verus! {

/// Where maps are fetched from unless the preferences say otherwise.
pub const SERVER_URL: &'static str = "http://localhost:3000";

/// User preferences.
pub struct Config {
    /// Background effects: twinkling stars, pulsing nebulae and the like.
    pub effects_enabled: bool,
    /// A server to fetch maps from instead of `SERVER_URL`.
    pub server_url: Option<String>,
}

impl Default for Config {
    fn default() -> (r: Config)
        ensures
            !r.effects_enabled,
            r.server_url is None,
    {
        Config { effects_enabled: false, server_url: None }
    }
}

impl Config {
    /// The server in effect: the override if there is one, else `SERVER_URL`.
    pub fn server_url(&self) -> (r: &str)
        ensures
            r@ == match self.server_url {
                Some(u) => u@,
                None => SERVER_URL@,
            },
    {
        match &self.server_url {
            Some(u) => u.as_str(),
            None => SERVER_URL,
        }
    }
}

} // verus!
