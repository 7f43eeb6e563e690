use rusty_dash::config::{init, Config, Variables};

fn full() -> Variables {
    Variables {
        db_url: Some("postgres://localhost/dash".to_string()),
        db_pool_size: Some("5".to_string()),
        github_access_token: Some("SECRET-REDACTED".to_string()),
        github_user_agent: Some("dash".to_string()),
        github_interval: Some("10".to_string()),
        releases_interval: Some("20".to_string()),
        buildbot_interval: Some("30".to_string()),
    }
}

#[test]
fn check_requires_the_three_texts() {
    let config = init(full()).unwrap();
    assert!(config.check());
    let blank = Config { db_url: String::new(), ..init(full()).unwrap() };
    assert!(!blank.check());
    let blank = Config { github_access_token: String::new(), ..init(full()).unwrap() };
    assert!(!blank.check());
    let blank = Config { github_user_agent: String::new(), ..init(full()).unwrap() };
    assert!(!blank.check());
}

#[test]
fn init_reads_every_variable() {
    let config = init(full()).unwrap();
    assert_eq!(config.db_url, "postgres://localhost/dash");
    assert_eq!(config.db_pool_size, 5);
    assert_eq!(config.github_access_token, "SECRET-REDACTED");
    assert_eq!(config.github_user_agent, "dash");
    assert_eq!(config.github_interval_mins, 10);
    assert_eq!(config.release_interval_mins, 20);
    assert_eq!(config.buildbot_interval_mins, 30);
}

#[test]
fn init_names_unset_variables_alphabetically() {
    let vars = Variables {
        db_url: None,
        github_user_agent: None,
        buildbot_interval: None,
        db_pool_size: Some("x".to_string()),
        ..full()
    };
    assert_eq!(
        init(vars).unwrap_err(),
        vec!["BUILDBOT_SCRAPE_INTERVAL", "DATABASE_URL", "GITHUB_USER_AGENT"]
    );
    let none = Variables {
        db_url: None,
        db_pool_size: None,
        github_access_token: None,
        github_user_agent: None,
        github_interval: None,
        releases_interval: None,
        buildbot_interval: None,
    };
    assert_eq!(
        init(none).unwrap_err(),
        vec![
            "BUILDBOT_SCRAPE_INTERVAL",
            "DATABASE_POOL_SIZE",
            "DATABASE_URL",
            "GITHUB_ACCESS_TOKEN",
            "GITHUB_SCRAPE_INTERVAL",
            "GITHUB_USER_AGENT",
            "RELEASES_SCRAPE_INTERVAL",
        ]
    );
}

#[test]
fn init_names_the_first_malformed_number() {
    let vars = Variables { db_pool_size: Some("many".to_string()), ..full() };
    assert_eq!(init(vars).unwrap_err(), vec!["DATABASE_POOL_SIZE"]);
    let vars = Variables {
        github_interval: Some("-1".to_string()),
        buildbot_interval: Some("".to_string()),
        ..full()
    };
    assert_eq!(init(vars).unwrap_err(), vec!["GITHUB_SCRAPE_INTERVAL"]);
    let vars = Variables { releases_interval: Some("1.5".to_string()), ..full() };
    assert_eq!(init(vars).unwrap_err(), vec!["RELEASES_SCRAPE_INTERVAL"]);
    let vars = Variables { buildbot_interval: Some("".to_string()), ..full() };
    assert_eq!(init(vars).unwrap_err(), vec!["BUILDBOT_SCRAPE_INTERVAL"]);
    let vars = Variables { db_pool_size: Some("4294967296".to_string()), ..full() };
    assert_eq!(init(vars).unwrap_err(), vec!["DATABASE_POOL_SIZE"]);
}
