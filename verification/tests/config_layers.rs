use clickpipe_rs::config::{Config, EnvVars};
use clickpipe_rs::Cli;

fn no_cli() -> Cli {
    Cli {
        clickhouse_url: None,
        clickhouse_db: None,
        clickhouse_table: None,
        clickhouse_user: None,
        clickhouse_password: None,
        batch_size: None,
        flush_interval_secs: None,
        input_file: None,
        config_file: None,
    }
}

fn no_env() -> EnvVars {
    EnvVars {
        clickhouse_url: None,
        clickhouse_db: None,
        clickhouse_table: None,
        clickhouse_user: None,
        clickhouse_password: None,
        input_file: None,
    }
}

#[test]
fn defaults_are_the_local_clickhouse() {
    let c = Config::defaults();
    assert_eq!(c.clickhouse_url, "http://localhost:8123");
    assert_eq!(c.clickhouse_db, "app");
    assert_eq!(c.clickhouse_table, "events");
    assert_eq!(c.clickhouse_user, "app");
    assert_eq!(c.clickhouse_password, "app_password");
    assert_eq!(c.input_file, "sample/events.jsonl");
}

#[test]
fn env_overrides_only_what_it_sets() {
    let mut c = Config::defaults();
    let mut env = no_env();
    env.clickhouse_db = Some("prod".to_string());
    env.input_file = Some("in.jsonl".to_string());
    c.apply_env(&env);
    assert_eq!(c.clickhouse_db, "prod");
    assert_eq!(c.input_file, "in.jsonl");
    assert_eq!(c.clickhouse_url, "http://localhost:8123");
    assert_eq!(c.clickhouse_table, "events");
}

#[test]
fn cli_overrides_only_what_was_passed() {
    let mut c = Config::defaults();
    let mut cli = no_cli();
    cli.clickhouse_url = Some("http://ch:8123".to_string());
    cli.clickhouse_password = Some("secret".to_string());
    cli.batch_size = Some(10);
    c.merge_cli(&cli);
    assert_eq!(c.clickhouse_url, "http://ch:8123");
    assert_eq!(c.clickhouse_password, "secret");
    assert_eq!(c.clickhouse_user, "app");
    c.merge_cli(&cli);
    assert_eq!(c.clickhouse_url, "http://ch:8123");
    c.merge_cli(&no_cli());
    assert_eq!(c.clickhouse_password, "secret");
}

#[test]
fn cli_beats_env_beats_defaults() {
    let mut env = no_env();
    env.clickhouse_url = Some("http://env:8123".to_string());
    env.clickhouse_user = Some("env_user".to_string());
    let mut cli = no_cli();
    cli.clickhouse_url = Some("http://cli:8123".to_string());
    let c = Config::build(&env, &cli);
    assert_eq!(c.clickhouse_url, "http://cli:8123");
    assert_eq!(c.clickhouse_user, "env_user");
    assert_eq!(c.clickhouse_db, "app");
}
