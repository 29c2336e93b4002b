//! The settings of a crawl, and their YAML form.
//!
//! The settings stand in the first document of a YAML text, under the key
//! `crawler`:
//!
//! ```yaml
//! crawler:
//!   delay: 500
//!   domain: https://example.com/
//!   initial_path: index.html
//!   mongo: mongodb://localhost:27017
//!   postgres: postgres://localhost/crawl
//! ```

use vstd::prelude::*;
use yaml_rust::{ScanError, YamlLoader};

verus! {

/// What governs a crawl.
#[derive(Debug, PartialEq, Eq)]
pub struct Config {
    /// The least time between two fetches to one domain, in milliseconds.
    pub delay: u32,
    /// The crawl domain: the scheme and host that every crawled URL has,
    /// followed, if the crawl is to stay below a path, by that path.
    pub domain: String,
    /// What follows `domain` in the URL that the crawl starts from.
    pub initial_path: String,
    /// The number of workers that run the scheduler.
    pub workers: u32,
    /// How long a fetch may take, in milliseconds.
    pub fetch_timeout: u32,
    /// How long a worker pauses when it finds nothing to do, in
    /// milliseconds.
    pub backoff: u32,
    /// After how many polls in a row that found nothing to do the crawl
    /// counts as finished.
    pub quiet_polls: u32,
    /// The number of URLs that the crawl may claim at most.
    pub url_budget: u64,
    /// How long after its start the crawl may still claim URLs, in
    /// milliseconds.
    pub time_budget: u64,
}

pub const DEFAULT_WORKERS: u32 = 1;

pub const DEFAULT_FETCH_TIMEOUT: u32 = 30000;

pub const DEFAULT_BACKOFF: u32 = 100;

pub const DEFAULT_QUIET_POLLS: u32 = 3;

pub const DEFAULT_URL_BUDGET: u64 = 1000000;

pub const DEFAULT_TIME_BUDGET: u64 = 0xFFFF_FFFF_FFFF_FFFF;

/// The values under `crawler` as the YAML text gives them; `None` where a
/// key is missing or its value is of another kind.
#[derive(Debug, PartialEq, Eq)]
pub struct RawSettings {
    pub delay: Option<i64>,
    pub domain: Option<String>,
    pub initial_path: Option<String>,
    pub mongo: Option<String>,
    pub postgres: Option<String>,
}

/// The settings of a crawl with the addresses of its two stores.
#[derive(Debug, PartialEq, Eq)]
pub struct Settings {
    pub config: Config,
    /// Where the document store is reached.
    pub mongo_uri: String,
    /// Where the metadata store is reached.
    pub pg_uri: String,
}

/// Why a YAML text gives no settings.
#[derive(Clone, Copy, Debug, PartialEq, Eq, Structural)]
pub enum ConfigError {
    /// The text is not YAML.
    Syntax,
    /// The text holds no document.
    NoDocument,
    /// `delay` is missing or no integer.
    MissingDelay,
    /// `domain` is missing or no string.
    MissingDomain,
    /// `initial_path` is missing or no string.
    MissingInitialPath,
    /// `mongo` is missing or no string.
    MissingMongo,
    /// `postgres` is missing or no string.
    MissingPostgres,
}

/// The names under which the settings stand: the key of the section, then
/// the keys of the delay, the domain, the initial path and the two stores.
pub open spec fn setting_keys() -> Seq<Seq<char>> {
    seq!["crawler"@, "delay"@, "domain"@, "initial_path"@, "mongo"@, "postgres"@]
}

/// The views of `keys`, in order.
pub open spec fn key_views(keys: Seq<&str>) -> Seq<Seq<char>> {
    Seq::new(keys.len(), |i: int| keys[i]@)
}

/// What `yaml_rust` reads from `text` under `keys`, of which the first
/// names a section and the others the values in it: `None` where the text
/// is not YAML, `Some(None)` where it holds no document, else the values
/// of the section in its first document.
pub uninterp spec fn yaml_section(text: Seq<char>, keys: Seq<Seq<char>>) -> Option<
    Option<RawSettings>,
>;

/// `yaml_rust::ScanError`, of which the library reads nothing: a text that
/// gives one is no YAML.
#[verifier::external_type_specification]
#[verifier::external_body]
pub struct ExScanError(ScanError);

/// `yaml_rust::YamlLoader::load_from_str`, then, in the first document, the
/// section `keys[0]` and in it the five values `keys[1..]`, the first read
/// with `Yaml::as_i64`, the others with `Yaml::as_str`. Indexing a YAML
/// value by a key that it lacks gives a bad value, of which both readers
/// give `None`. Believed, not proved: what is read depends on `text` and
/// `keys` alone, and the loader fails exactly where the name gives `None`.
#[verifier::external_body]
fn read_section(text: &str, keys: &[&str; 6]) -> (r: Result<Option<RawSettings>, ScanError>)
    ensures
        match r {
            Ok(section) => yaml_section(text@, key_views(keys@)) == Some(section),
            Err(_) => yaml_section(text@, key_views(keys@)) is None,
        },
{
    let docs = YamlLoader::load_from_str(text)?;
    Ok(docs.first().map(|d| &d[keys[0]]).map(|c| RawSettings {
        delay: c[keys[1]].as_i64(),
        domain: c[keys[2]].as_str().map(String::from),
        initial_path: c[keys[3]].as_str().map(String::from),
        mongo: c[keys[4]].as_str().map(String::from),
        postgres: c[keys[5]].as_str().map(String::from),
    }))
}

/// The error that the values `raw` meet with: the first missing one in the
/// order `delay`, `domain`, `initial_path`, `mongo`, `postgres`.
pub open spec fn first_missing(raw: RawSettings) -> Option<ConfigError> {
    if raw.delay is None {
        Some(ConfigError::MissingDelay)
    } else if raw.domain is None {
        Some(ConfigError::MissingDomain)
    } else if raw.initial_path is None {
        Some(ConfigError::MissingInitialPath)
    } else if raw.mongo is None {
        Some(ConfigError::MissingMongo)
    } else if raw.postgres is None {
        Some(ConfigError::MissingPostgres)
    } else {
        None
    }
}

/// Whether `settings` hold the values `raw`: the delay cut to its low 32
/// bits, every other setting at its default.
pub open spec fn settings_hold(settings: Settings, raw: RawSettings) -> bool {
    &&& raw.delay matches Some(delay) && settings.config.delay == delay as u32
    &&& raw.domain matches Some(domain) && settings.config.domain@ == domain@
    &&& raw.initial_path matches Some(path) && settings.config.initial_path@ == path@
    &&& raw.mongo matches Some(mongo) && settings.mongo_uri@ == mongo@
    &&& raw.postgres matches Some(postgres) && settings.pg_uri@ == postgres@
    &&& settings.config.has_defaults()
}

/// Whether `r` is what the reading `section` of a YAML text comes to.
pub open spec fn settings_result(
    r: Result<Settings, ConfigError>,
    section: Option<Option<RawSettings>>,
) -> bool {
    match section {
        None => r == Err::<Settings, ConfigError>(ConfigError::Syntax),
        Some(None) => r == Err::<Settings, ConfigError>(ConfigError::NoDocument),
        Some(Some(raw)) => match first_missing(raw) {
            Some(e) => r == Err::<Settings, ConfigError>(e),
            None => r matches Ok(settings) && settings_hold(settings, raw),
        },
    }
}

impl Config {
    /// Whether every setting but the three that `new` takes is at its
    /// default.
    pub open spec fn has_defaults(&self) -> bool {
        &&& self.workers == DEFAULT_WORKERS
        &&& self.fetch_timeout == DEFAULT_FETCH_TIMEOUT
        &&& self.backoff == DEFAULT_BACKOFF
        &&& self.quiet_polls == DEFAULT_QUIET_POLLS
        &&& self.url_budget == DEFAULT_URL_BUDGET
        &&& self.time_budget == DEFAULT_TIME_BUDGET
    }

    /// The URL that the crawl starts from: `domain` followed by
    /// `initial_path`.
    pub open spec fn seed(&self) -> Seq<char> {
        self.domain@ + self.initial_path@
    }

    /// The settings of a crawl of `domain` that starts at `initial_path` and
    /// leaves `delay` milliseconds between two fetches; one worker, and the
    /// default limits.
    pub fn new(delay: u32, domain: String, initial_path: String) -> (c: Config)
        ensures
            c.delay == delay,
            c.domain == domain,
            c.initial_path == initial_path,
            c.has_defaults(),
    {
        Config {
            delay,
            domain,
            initial_path,
            workers: DEFAULT_WORKERS,
            fetch_timeout: DEFAULT_FETCH_TIMEOUT,
            backoff: DEFAULT_BACKOFF,
            quiet_polls: DEFAULT_QUIET_POLLS,
            url_budget: DEFAULT_URL_BUDGET,
            time_budget: DEFAULT_TIME_BUDGET,
        }
    }

    /// The URL that the crawl starts from.
    pub fn seed_url(&self) -> (s: String)
        ensures
            s@ == self.seed(),
    {
        let mut s = self.domain.clone();
        s.append(self.initial_path.as_str());
        s
    }
}

/// Checks the values that a YAML text gave: all five must be there.
pub fn check_settings(raw: RawSettings) -> (r: Result<Settings, ConfigError>)
    ensures
        settings_result(r, Some(Some(raw))),
{
    let delay = match raw.delay {
        Some(d) => d,
        None => { return Err(ConfigError::MissingDelay); },
    };
    let domain = match raw.domain {
        Some(d) => d,
        None => { return Err(ConfigError::MissingDomain); },
    };
    let initial_path = match raw.initial_path {
        Some(p) => p,
        None => { return Err(ConfigError::MissingInitialPath); },
    };
    let mongo_uri = match raw.mongo {
        Some(m) => m,
        None => { return Err(ConfigError::MissingMongo); },
    };
    let pg_uri = match raw.postgres {
        Some(p) => p,
        None => { return Err(ConfigError::MissingPostgres); },
    };
    let config = Config::new(#[verifier::truncate] (delay as u32), domain, initial_path);
    Ok(Settings { config, mongo_uri, pg_uri })
}

/// Reads the settings of a crawl from a YAML text.
pub fn load_settings(text: &str) -> (r: Result<Settings, ConfigError>)
    ensures
        settings_result(r, yaml_section(text@, setting_keys())),
{
    let keys: [&str; 6] = ["crawler", "delay", "domain", "initial_path", "mongo", "postgres"];
    assert(key_views(keys@) =~= setting_keys());
    match read_section(text, &keys) {
        Ok(Some(raw)) => check_settings(raw),
        Ok(None) => Err(ConfigError::NoDocument),
        Err(_) => Err(ConfigError::Syntax),
    }
}

} // verus!
