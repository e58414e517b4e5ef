//! Scheduler configuration, feed definitions and their semantic checks.
use vstd::prelude::*;
use vstd::string::*;

use crate::link_state::{POLL_SECONDS_LIMIT, PPM};
use crate::text::{host_of_url, url_host};

verus! {

/// Parallelism of a tick when the configuration names none.
pub const DEFAULT_PARALLELISM: u32 = 64;

/// How the process treats its database on start.
#[derive(PartialEq, Eq, Structural, Clone, Copy, Debug)]
pub enum AppMode {
    Dev,
    Prod,
}

/// One syndication feed to poll.
#[derive(Clone, Debug)]
pub struct FeedConfig {
    pub id: String,
    pub url: String,
    pub domain: String,
    pub base_poll_seconds: u64,
}

/// A named group of origin domains.
#[derive(Clone, Debug)]
pub struct CategoryConfig {
    pub name: String,
    pub domains: Vec<String>,
}

/// Read-only settings of the scheduler. Fractions are in parts per million.
#[derive(Clone, Debug)]
pub struct AppConfig {
    pub global_max_concurrent_requests: Option<u32>,
    pub per_host_max_concurrent: u32,
    pub history_sample_rate_ppm: u64,
    pub default_poll_seconds: u64,
    pub max_poll_seconds: u64,
    pub jitter_ppm: u64,
    pub user_agent: String,
    pub timezone: String,
    pub mode: AppMode,
    pub tick_interval_seconds: u64,
    pub due_batch_size: u64,
    pub domains: Vec<String>,
}

/// Why a configuration was refused.
#[derive(Debug)]
pub enum ConfigError {
    Io(String),
    Toml(String),
    Invalid(String),
}

impl FeedConfig {
    /// A feed whose domain is the host its URL names.
    pub fn new(id: String, url: String, base_poll_seconds: u64) -> (r: FeedConfig)
        ensures
            r.id == id,
            r.url == url,
            r.domain@ == url_host(url@),
            r.base_poll_seconds == base_poll_seconds,
    {
        let domain = host_of_url(url.as_str());
        FeedConfig { id, url, domain, base_poll_seconds }
    }

    /// A feed's base cadence is at least a second and within the cadence limit.
    pub open spec fn wf(&self) -> bool {
        1 <= self.base_poll_seconds <= POLL_SECONDS_LIMIT
    }
}

impl AppConfig {
    /// The ranges the scheduler relies on.
    pub open spec fn wf(&self) -> bool {
        &&& self.global_max_concurrent_requests matches Some(n) ==> n >= 1
        &&& self.per_host_max_concurrent >= 1
        &&& self.history_sample_rate_ppm <= PPM
        &&& 1 <= self.default_poll_seconds <= self.max_poll_seconds
        &&& self.max_poll_seconds <= POLL_SECONDS_LIMIT
        &&& self.jitter_ppm <= PPM
        &&& self.tick_interval_seconds >= 1
        &&& self.due_batch_size >= 1
    }

    /// Settings with every default and the given user agent and time zone.
    pub fn with_defaults(user_agent: String, timezone: String) -> (r: AppConfig)
        ensures
            r.wf(),
            r.global_max_concurrent_requests == Some(64u32),
            r.per_host_max_concurrent == 4,
            r.history_sample_rate_ppm == 100_000,
            r.default_poll_seconds == 900,
            r.max_poll_seconds == 86400,
            r.jitter_ppm == 200_000,
            r.user_agent == user_agent,
            r.timezone == timezone,
            r.mode == AppMode::Prod,
            r.tick_interval_seconds == 5,
            r.due_batch_size == 1000,
            r.domains@.len() == 0,
    {
        AppConfig {
            global_max_concurrent_requests: Some(64),
            per_host_max_concurrent: 4,
            history_sample_rate_ppm: 100_000,
            default_poll_seconds: 900,
            max_poll_seconds: 86400,
            jitter_ppm: 200_000,
            user_agent,
            timezone,
            mode: AppMode::Prod,
            tick_interval_seconds: 5,
            due_batch_size: 1000,
            domains: Vec::new(),
        }
    }

    /// The tick's parallelism: the global request cap, or 64 when unset.
    pub fn parallelism(&self) -> (r: u32)
        ensures
            r == match self.global_max_concurrent_requests {
                Some(n) => n,
                None => DEFAULT_PARALLELISM,
            },
    {
        match self.global_max_concurrent_requests {
            Some(n) => n,
            None => DEFAULT_PARALLELISM,
        }
    }

    /// Accepts exactly the settings whose ranges hold.
    pub fn check_ranges(&self) -> (r: Result<(), ConfigError>)
        ensures
            r is Ok <==> self.wf(),
            r matches Err(e) ==> e is Invalid,
    {
        let global_ok = match self.global_max_concurrent_requests {
            Some(n) => n >= 1,
            None => true,
        };
        if !global_ok {
            return Err(ConfigError::Invalid(String::from_str("global_max_concurrent_requests must be at least 1")));
        }
        if self.per_host_max_concurrent < 1 {
            return Err(ConfigError::Invalid(String::from_str("per_host_max_concurrent must be at least 1")));
        }
        if self.history_sample_rate_ppm > PPM {
            return Err(ConfigError::Invalid(String::from_str("history_sample_rate must lie in [0, 1]")));
        }
        if self.jitter_ppm > PPM {
            return Err(ConfigError::Invalid(String::from_str("jitter_fraction must lie in [0, 1]")));
        }
        if self.default_poll_seconds < 1 || self.default_poll_seconds > self.max_poll_seconds
            || self.max_poll_seconds > POLL_SECONDS_LIMIT {
            return Err(ConfigError::Invalid(String::from_str("poll seconds must satisfy 1 <= default <= max")));
        }
        if self.tick_interval_seconds < 1 {
            return Err(ConfigError::Invalid(String::from_str("tick_interval_seconds must be at least 1")));
        }
        if self.due_batch_size < 1 {
            return Err(ConfigError::Invalid(String::from_str("due_batch_size must be at least 1")));
        }
        Ok(())
    }
}

/// A copy of a feed definition.
pub(crate) fn clone_feed(f: &FeedConfig) -> (r: FeedConfig)
    ensures
        r == *f,
{
    FeedConfig {
        id: f.id.clone(),
        url: f.url.clone(),
        domain: f.domain.clone(),
        base_poll_seconds: f.base_poll_seconds,
    }
}

/// Whether some category lists domain `d`.
pub open spec fn categorized(categories: Seq<CategoryConfig>, d: Seq<char>) -> bool {
    exists|c: int, j: int|
        0 <= c < categories.len() && 0 <= j < categories[c].domains@.len()
            && #[trigger] categories[c].domains@[j]@ == d
}

/// The message for a configured domain that no category lists.
pub open spec fn missing_domain_message(d: Seq<char>) -> Seq<char> {
    "domain '"@ + d + "' missing from categories.toml"@
}

fn category_lists(categories: &[CategoryConfig], d: &String) -> (r: bool)
    ensures
        r == categorized(categories@, d@),
{
    let mut c: usize = 0;
    while c < categories.len()
        invariant
            c <= categories@.len(),
            forall|k: int, j: int|
                0 <= k < c && 0 <= j < categories@[k].domains@.len()
                    ==> #[trigger] categories@[k].domains@[j]@ != d@,
        decreases categories@.len() - c,
    {
        let domains = &categories[c].domains;
        let mut j: usize = 0;
        while j < domains.len()
            invariant
                c < categories@.len(),
                domains == categories@[c as int].domains,
                j <= domains@.len(),
                forall|k: int, i: int|
                    0 <= k < c && 0 <= i < categories@[k].domains@.len()
                        ==> #[trigger] categories@[k].domains@[i]@ != d@,
                forall|i: int| 0 <= i < j ==> #[trigger] domains@[i]@ != d@,
            decreases domains@.len() - j,
        {
            if domains[j] == *d {
                assert(categories@[c as int].domains@[j as int]@ == d@);
                return true;
            }
            j = j + 1;
        }
        c = c + 1;
    }
    false
}

/// Every domain with settings must belong to a category. Fails on the first
/// configured domain that no category lists.
pub fn validate_semantic(app: &AppConfig, categories: &[CategoryConfig]) -> (r: Result<(), ConfigError>)
    ensures
        r is Ok <==> forall|i: int|
            0 <= i < app.domains@.len() ==> #[trigger] categorized(categories@, app.domains@[i]@),
        r matches Err(e) ==> exists|i: int|
            0 <= i < app.domains@.len() && !categorized(categories@, app.domains@[i]@) && (forall|
                k: int,
            | 0 <= k < i ==> #[trigger] categorized(categories@, app.domains@[k]@)) && (e matches
                ConfigError::Invalid(m) && m@ == missing_domain_message(app.domains@[i]@)),
{
    let mut i: usize = 0;
    while i < app.domains.len()
        invariant
            i <= app.domains@.len(),
            forall|k: int| 0 <= k < i ==> #[trigger] categorized(categories@, app.domains@[k]@),
        decreases app.domains@.len() - i,
    {
        let d = &app.domains[i];
        if !category_lists(categories, d) {
            let mut msg = String::from_str("domain '");
            msg.append(d.as_str());
            msg.append("' missing from categories.toml");
            return Err(ConfigError::Invalid(msg));
        }
        i = i + 1;
    }
    Ok(())
}

/// Configuration files tried, in order, when none is named.
pub fn config_candidates() -> (r: Vec<String>)
    ensures
        r@.len() == 2,
        r@[0]@ == "res/config.toml"@,
        r@[1]@ == "src/main/resources/config/config.toml"@,
{
    let mut v: Vec<String> = Vec::new();
    v.push(String::from_str("res/config.toml"));
    v.push(String::from_str("src/main/resources/config/config.toml"));
    v
}

/// The configuration file to load: the one named, else the first candidate
/// that exists (`exists[i]` tells of `candidates[i]`), else the first
/// candidate.
pub fn pick_config_path(arg1: Option<String>, candidates: &Vec<String>, exists: &[bool]) -> (r:
    String)
    requires
        candidates@.len() >= 1,
        exists@.len() == candidates@.len(),
    ensures
        arg1 matches Some(p) ==> r == p,
        arg1 is None ==> (exists|i: int|
            0 <= i < exists@.len() && exists@[i] && (forall|j: int| 0 <= j < i ==> !exists@[j])
                && r@ == candidates@[i]@) || ((forall|i: int| 0 <= i < exists@.len() ==> !exists@[i])
            && r@ == candidates@[0]@),
{
    if let Some(p) = arg1 {
        return p;
    }
    let mut i: usize = 0;
    while i < exists.len()
        invariant
            i <= exists@.len(),
            exists@.len() == candidates@.len(),
            arg1 is None,
            forall|j: int| 0 <= j < i ==> !exists@[j],
        decreases exists@.len() - i,
    {
        if exists[i] {
            let r = candidates[i].clone();
            assert(0 <= i < exists@.len() && exists@[i as int] && (forall|j: int|
                0 <= j < i ==> !exists@[j]) && r@ == candidates@[i as int]@);
            return r;
        }
        i = i + 1;
    }
    candidates[0].clone()
}

} // verus!
