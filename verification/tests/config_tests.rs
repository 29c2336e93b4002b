use web_crawler::config::{
    check_settings, load_settings, Config, ConfigError, RawSettings, DEFAULT_FETCH_TIMEOUT,
    DEFAULT_QUIET_POLLS, DEFAULT_TIME_BUDGET, DEFAULT_URL_BUDGET, DEFAULT_WORKERS,
};

const GOOD: &str = "crawler:\n  delay: 500\n  domain: https://ex.com/\n  initial_path: index.html\n  mongo: mongodb://localhost:27017\n  postgres: postgres://localhost/crawl\n";

fn without(key: &str) -> String {
    GOOD.lines().filter(|l| !l.trim_start().starts_with(key)).map(|l| format!("{}\n", l)).collect()
}

#[test]
fn settings_are_read_from_yaml() {
    let s = load_settings(GOOD).unwrap();
    assert_eq!(s.config.delay, 500);
    assert_eq!(s.config.domain, "https://ex.com/");
    assert_eq!(s.config.initial_path, "index.html");
    assert_eq!(s.mongo_uri, "mongodb://localhost:27017");
    assert_eq!(s.pg_uri, "postgres://localhost/crawl");
    assert_eq!(s.config.workers, DEFAULT_WORKERS);
    assert_eq!(s.config.fetch_timeout, DEFAULT_FETCH_TIMEOUT);
    assert_eq!(s.config.quiet_polls, DEFAULT_QUIET_POLLS);
    assert_eq!(s.config.url_budget, DEFAULT_URL_BUDGET);
    assert_eq!(s.config.time_budget, DEFAULT_TIME_BUDGET);
    assert_eq!(s.config.seed_url(), "https://ex.com/index.html");
}

#[test]
fn only_the_first_document_counts() {
    let text = format!("{}---\ncrawler:\n  delay: 1\n", GOOD);
    assert_eq!(load_settings(&text).unwrap().config.delay, 500);
}

#[test]
fn text_that_is_no_yaml_is_a_syntax_error() {
    assert_eq!(load_settings("crawler: [1, 2"), Err(ConfigError::Syntax));
    assert_eq!(load_settings("a: b: c: d"), Err(ConfigError::Syntax));
}

#[test]
fn text_without_a_document_is_refused() {
    assert_eq!(load_settings(""), Err(ConfigError::NoDocument));
    assert_eq!(load_settings("# nothing here\n"), Err(ConfigError::NoDocument));
}

#[test]
fn each_missing_value_has_its_error() {
    assert_eq!(load_settings(&without("delay")), Err(ConfigError::MissingDelay));
    assert_eq!(load_settings(&without("domain")), Err(ConfigError::MissingDomain));
    assert_eq!(load_settings(&without("initial_path")), Err(ConfigError::MissingInitialPath));
    assert_eq!(load_settings(&without("mongo")), Err(ConfigError::MissingMongo));
    assert_eq!(load_settings(&without("postgres")), Err(ConfigError::MissingPostgres));
    assert_eq!(load_settings("other: 1\n"), Err(ConfigError::MissingDelay));
    assert_eq!(load_settings("crawler: 5\n"), Err(ConfigError::MissingDelay));
    assert_eq!(load_settings("- a\n- b\n"), Err(ConfigError::MissingDelay));
}

#[test]
fn values_of_the_wrong_kind_count_as_missing() {
    assert_eq!(load_settings(&GOOD.replace("delay: 500", "delay: soon")), Err(ConfigError::MissingDelay));
    assert_eq!(load_settings(&GOOD.replace("delay: 500", "delay: 1.5")), Err(ConfigError::MissingDelay));
    assert_eq!(load_settings(&GOOD.replace("domain: https://ex.com/", "domain: 7")), Err(ConfigError::MissingDomain));
    assert_eq!(load_settings(&GOOD.replace("initial_path: index.html", "initial_path: [a]")), Err(ConfigError::MissingInitialPath));
}

#[test]
fn the_first_missing_value_is_reported() {
    assert_eq!(load_settings("crawler:\n  postgres: p\n"), Err(ConfigError::MissingDelay));
    assert_eq!(load_settings("crawler:\n  delay: 1\n  mongo: m\n"), Err(ConfigError::MissingDomain));
    let raw = RawSettings { delay: Some(1), domain: Some("d".to_string()), initial_path: None, mongo: None, postgres: None };
    assert_eq!(check_settings(raw), Err(ConfigError::MissingInitialPath));
}

#[test]
fn delay_keeps_its_low_32_bits() {
    assert_eq!(load_settings(&GOOD.replace("delay: 500", "delay: 4294967301")).unwrap().config.delay, 5);
    assert_eq!(load_settings(&GOOD.replace("delay: 500", "delay: -1")).unwrap().config.delay, 4294967295);
    assert_eq!(load_settings(&GOOD.replace("delay: 500", "delay: 0")).unwrap().config.delay, 0);
    let raw = RawSettings {
        delay: Some(i64::MIN),
        domain: Some("d".to_string()),
        initial_path: Some("p".to_string()),
        mongo: Some("m".to_string()),
        postgres: Some("q".to_string()),
    };
    let s = check_settings(raw).unwrap();
    assert_eq!(s.config.delay, 0);
    assert_eq!(s.mongo_uri, "m");
    assert_eq!(s.pg_uri, "q");
}

#[test]
fn new_config_has_the_defaults() {
    let c = Config::new(250, "https://ex.com/".to_string(), "".to_string());
    assert_eq!(
        c,
        Config {
            delay: 250,
            domain: "https://ex.com/".to_string(),
            initial_path: "".to_string(),
            workers: 1,
            fetch_timeout: 30000,
            backoff: 100,
            quiet_polls: 3,
            url_budget: 1000000,
            time_budget: u64::MAX,
        }
    );
    assert_eq!(c.seed_url(), "https://ex.com/");
}
