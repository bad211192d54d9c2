//! Configuration of the ingester, built in layers: built-in defaults, then
//! environment variables, then command-line options. A later layer overrides
//! an earlier one only where it sets a value.

use vstd::prelude::*;

use crate::console::Cli;

verus! {

/// Where to read events from and where to send them.
#[derive(Debug)]
pub struct Config {
    pub clickhouse_url: String,
    pub clickhouse_db: String,
    pub clickhouse_table: String,
    pub clickhouse_user: String,
    pub clickhouse_password: String,
    pub input_file: String,
}

/// The abstract value of a [`Config`].
pub struct ConfigView {
    pub clickhouse_url: Seq<char>,
    pub clickhouse_db: Seq<char>,
    pub clickhouse_table: Seq<char>,
    pub clickhouse_user: Seq<char>,
    pub clickhouse_password: Seq<char>,
    pub input_file: Seq<char>,
}

impl View for Config {
    type V = ConfigView;

    open spec fn view(&self) -> ConfigView {
        ConfigView {
            clickhouse_url: self.clickhouse_url@,
            clickhouse_db: self.clickhouse_db@,
            clickhouse_table: self.clickhouse_table@,
            clickhouse_user: self.clickhouse_user@,
            clickhouse_password: self.clickhouse_password@,
            input_file: self.input_file@,
        }
    }
}

/// The values of the environment variables the configuration reads:
/// `CLICKHOUSE_URL`, `CLICKHOUSE_DB`, `CLICKHOUSE_TABLE`, `CLICKHOUSE_USER`,
/// `CLICKHOUSE_PASSWORD` and `INPUT_FILE`; `None` for a variable that is not set.
#[derive(Debug)]
pub struct EnvVars {
    pub clickhouse_url: Option<String>,
    pub clickhouse_db: Option<String>,
    pub clickhouse_table: Option<String>,
    pub clickhouse_user: Option<String>,
    pub clickhouse_password: Option<String>,
    pub input_file: Option<String>,
}

/// A setting after one layer: the layer's value where it has one, else the
/// value so far.
pub open spec fn overridden(current: Seq<char>, layer: Option<Seq<char>>) -> Seq<char> {
    match layer {
        Some(v) => v,
        None => current,
    }
}

/// The built-in defaults.
pub open spec fn default_config() -> ConfigView {
    ConfigView {
        clickhouse_url: "http://localhost:8123"@,
        clickhouse_db: "app"@,
        clickhouse_table: "events"@,
        clickhouse_user: "app"@,
        clickhouse_password: "app_password"@,
        input_file: "sample/events.jsonl"@,
    }
}

/// A configuration with the environment layer applied.
pub open spec fn with_env(c: ConfigView, env: EnvVars) -> ConfigView {
    ConfigView {
        clickhouse_url: overridden(c.clickhouse_url, env.clickhouse_url.deep_view()),
        clickhouse_db: overridden(c.clickhouse_db, env.clickhouse_db.deep_view()),
        clickhouse_table: overridden(c.clickhouse_table, env.clickhouse_table.deep_view()),
        clickhouse_user: overridden(c.clickhouse_user, env.clickhouse_user.deep_view()),
        clickhouse_password: overridden(c.clickhouse_password, env.clickhouse_password.deep_view()),
        input_file: overridden(c.input_file, env.input_file.deep_view()),
    }
}

/// A configuration with the command-line layer applied.
pub open spec fn with_cli(c: ConfigView, cli: Cli) -> ConfigView {
    ConfigView {
        clickhouse_url: overridden(c.clickhouse_url, cli.clickhouse_url.deep_view()),
        clickhouse_db: overridden(c.clickhouse_db, cli.clickhouse_db.deep_view()),
        clickhouse_table: overridden(c.clickhouse_table, cli.clickhouse_table.deep_view()),
        clickhouse_user: overridden(c.clickhouse_user, cli.clickhouse_user.deep_view()),
        clickhouse_password: overridden(c.clickhouse_password, cli.clickhouse_password.deep_view()),
        input_file: overridden(c.input_file, cli.input_file.deep_view()),
    }
}

/// Replaces `target` with a copy of the layer's value where the layer has one.
fn override_field(target: &mut String, layer: &Option<String>)
    ensures
        final(target)@ == overridden(old(target)@, layer.deep_view()),
{
    if let Some(v) = layer {
        *target = v.clone();
    }
}

impl Config {
    /// 1. The built-in defaults.
    pub fn defaults() -> (c: Config)
        ensures
            c@ == default_config(),
    {
        Config {
            clickhouse_url: String::from_str("http://localhost:8123"),
            clickhouse_db: String::from_str("app"),
            clickhouse_table: String::from_str("events"),
            clickhouse_user: String::from_str("app"),
            clickhouse_password: String::from_str("app_password"),
            input_file: String::from_str("sample/events.jsonl"),
        }
    }

    /// 2. Environment variables override what is there, where they are set.
    pub fn apply_env(&mut self, env: &EnvVars)
        ensures
            final(self)@ == with_env(old(self)@, *env),
    {
        override_field(&mut self.clickhouse_url, &env.clickhouse_url);
        override_field(&mut self.clickhouse_db, &env.clickhouse_db);
        override_field(&mut self.clickhouse_table, &env.clickhouse_table);
        override_field(&mut self.clickhouse_user, &env.clickhouse_user);
        override_field(&mut self.clickhouse_password, &env.clickhouse_password);
        override_field(&mut self.input_file, &env.input_file);
    }

    /// 4. Command-line options override everything, but only those the user
    /// actually passed.
    pub fn merge_cli(&mut self, cli: &Cli)
        ensures
            final(self)@ == with_cli(old(self)@, *cli),
    {
        override_field(&mut self.clickhouse_url, &cli.clickhouse_url);
        override_field(&mut self.clickhouse_db, &cli.clickhouse_db);
        override_field(&mut self.clickhouse_table, &cli.clickhouse_table);
        override_field(&mut self.clickhouse_user, &cli.clickhouse_user);
        override_field(&mut self.clickhouse_password, &cli.clickhouse_password);
        override_field(&mut self.input_file, &cli.input_file);
    }

    /// The configuration the ingester runs with: defaults, then the
    /// environment, then the command line.
    pub fn build(env: &EnvVars, cli: &Cli) -> (c: Config)
        ensures
            c@ == with_cli(with_env(default_config(), *env), *cli),
    {
        let mut c = Config::defaults();
        c.apply_env(env);
        c.merge_cli(cli);
        c
    }
}

/// The value of one setting once every layer is applied: the command line's
/// if it sets one, else the environment's if it sets one, else the default.
pub open spec fn layered(cli: Option<Seq<char>>, env: Option<Seq<char>>, default: Seq<char>) -> Seq<
    char,
> {
    match cli {
        Some(v) => v,
        None => match env {
            Some(v) => v,
            None => default,
        },
    }
}

/// Precedence of the layers: each setting of the built configuration comes
/// from the command line if given there, else from the environment if set
/// there, else from the defaults.
pub proof fn lemma_layer_precedence(env: EnvVars, cli: Cli)
    ensures
        ({
            let c = with_cli(with_env(default_config(), env), cli);
            let d = default_config();
            &&& c.clickhouse_url == layered(
                cli.clickhouse_url.deep_view(),
                env.clickhouse_url.deep_view(),
                d.clickhouse_url,
            )
            &&& c.clickhouse_db == layered(
                cli.clickhouse_db.deep_view(),
                env.clickhouse_db.deep_view(),
                d.clickhouse_db,
            )
            &&& c.clickhouse_table == layered(
                cli.clickhouse_table.deep_view(),
                env.clickhouse_table.deep_view(),
                d.clickhouse_table,
            )
            &&& c.clickhouse_user == layered(
                cli.clickhouse_user.deep_view(),
                env.clickhouse_user.deep_view(),
                d.clickhouse_user,
            )
            &&& c.clickhouse_password == layered(
                cli.clickhouse_password.deep_view(),
                env.clickhouse_password.deep_view(),
                d.clickhouse_password,
            )
            &&& c.input_file == layered(
                cli.input_file.deep_view(),
                env.input_file.deep_view(),
                d.input_file,
            )
        }),
{
}

/// Applying the same command line twice is the same as applying it once.
pub proof fn lemma_merge_cli_idempotent(c: ConfigView, cli: Cli)
    ensures
        with_cli(with_cli(c, cli), cli) == with_cli(c, cli),
{
}

/// Applying the same environment twice is the same as applying it once.
pub proof fn lemma_apply_env_idempotent(c: ConfigView, env: EnvVars)
    ensures
        with_env(with_env(c, env), env) == with_env(c, env),
{
}

/// A command line that sets none of the settings leaves the configuration as
/// it was.
pub proof fn lemma_empty_cli_keeps(c: ConfigView, cli: Cli)
    requires
        cli.clickhouse_url is None,
        cli.clickhouse_db is None,
        cli.clickhouse_table is None,
        cli.clickhouse_user is None,
        cli.clickhouse_password is None,
        cli.input_file is None,
    ensures
        with_cli(c, cli) == c,
{
}

/// An environment that sets none of the variables leaves the configuration as
/// it was.
pub proof fn lemma_empty_env_keeps(c: ConfigView, env: EnvVars)
    requires
        env.clickhouse_url is None,
        env.clickhouse_db is None,
        env.clickhouse_table is None,
        env.clickhouse_user is None,
        env.clickhouse_password is None,
        env.input_file is None,
    ensures
        with_env(c, env) == c,
{
}

} // verus!
