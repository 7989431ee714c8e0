//! What the HTTP front door hands the engine and holds for it: the
//! request shape, the shared state, and the origin check.
use vstd::prelude::*;

use crate::cache::ResultCache;
use crate::config;
use crate::config::Configuration;

verus! {

/// A scrape request: the URL, and an ignorable method-override field.
pub struct ScrapeRequest {
    pub url: String,
    pub _method: Option<String>,
}

/// The shared state behind the route: the configuration, the parsed
/// allowed origins, and the result cache.
pub struct State {
    pub config: Configuration,
    pub parsed_allowed_origins: Vec<String>,
    pub result_cache: ResultCache,
}

impl State {
    /// Builds the state: the origins parsed once, the cache empty with
    /// the configured windows.
    pub fn new(config: Configuration) -> (r: State)
        ensures
            r.parsed_allowed_origins.deep_view() == config::origin_list(
                config.allowed_origins@,
            ),
            r.result_cache.entries@ == Seq::<crate::cache::CacheEntry>::empty(),
            r.result_cache.wf(),
            r.result_cache.idle_secs == config.cache_idle_secs,
            r.result_cache.live_secs == config.cache_live_secs,
            r.config == config,
    {
        let parsed_allowed_origins = config::parse_allowed_origins(config.allowed_origins.as_str());
        let result_cache = ResultCache::new(config.cache_idle_secs, config.cache_live_secs);
        State { config, parsed_allowed_origins, result_cache }
    }

    /// Whether a request origin is allowed: a named origin must be on
    /// the list unless the list is empty; a missing origin falls back
    /// to the configured allowance.
    pub fn is_allowed_origin(&self, origin: Option<&String>) -> (r: bool)
        ensures
            match origin {
                Some(o) => r == (self.parsed_allowed_origins.deep_view().contains(o@)
                    || self.parsed_allowed_origins@.len() == 0),
                None => r == self.config.allow_empty_origin,
            },
    {
        match origin {
            None => self.config.allow_empty_origin,
            Some(o) => {
                let ghost dv = self.parsed_allowed_origins.deep_view();
                let mut allowed = false;
                let mut i: usize = 0;
                while i < self.parsed_allowed_origins.len()
                    invariant
                        0 <= i <= self.parsed_allowed_origins@.len(),
                        dv == self.parsed_allowed_origins.deep_view(),
                        dv.len() == self.parsed_allowed_origins@.len(),
                        allowed == exists|t: int| 0 <= t < i && #[trigger] dv[t] == o@,
                    decreases self.parsed_allowed_origins@.len() - i,
                {
                    if crate::text::str_eq(
                        self.parsed_allowed_origins[i].as_str(),
                        o.as_str(),
                    ) {
                        proof {
                            assert(dv[i as int] == o@);
                        }
                        allowed = true;
                    }
                    i = i + 1;
                }
                allowed || self.parsed_allowed_origins.len() == 0
            },
        }
    }
}

} // verus!
