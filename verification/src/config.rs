//! The service's configuration, its defaults, and the rules it must satisfy.
use vstd::prelude::*;
use crate::text::{concat3, owned};

verus! {

/// The rule a configuration value breaks.
#[derive(Debug, Clone, Copy, PartialEq, Eq, Structural)]
pub enum Rule {
    /// The value must not be empty.
    Length,
    /// The number is out of its range.
    Range,
    /// The value must be a URL.
    Url,
}

/// A broken rule, at the dotted path of its field.
#[derive(Debug, Clone)]
pub struct Violation {
    pub path: String,
    pub rule: Rule,
}

pub open spec fn violation_views(v: Seq<Violation>) -> Seq<(Seq<char>, Rule)> {
    v.map_values(|x: Violation| (x.path@, x.rule))
}

/// Whether the `url` crate parses `s` as a URL.
pub uninterp spec fn is_url(s: Seq<char>) -> bool;

/// `url::Url::parse(s).is_ok()`, the check behind the `url` rule.
#[verifier::external_body]
pub(crate) fn parses_as_url(s: &str) -> (r: bool)
    ensures
        r == is_url(s@),
{
    url::Url::parse(s).is_ok()
}

fn push_violation(out: &mut Vec<Violation>, section: &str, field: &str, rule: Rule)
    ensures
        violation_views(final(out)@) == violation_views(old(out)@).push(
            (section@ + "."@ + field@, rule),
        ),
{
    let ghost before = violation_views(out@);
    out.push(Violation { path: concat3(section, ".", field), rule });
    assert(violation_views(out@) =~= before.push((section@ + "."@ + field@, rule)));
}

pub fn default_host() -> (r: String)
    ensures
        r@ == "0.0.0.0"@,
{
    owned("0.0.0.0")
}

pub fn default_port() -> (r: u16)
    ensures
        r == 8080,
{
    8080
}

pub fn default_max_connections() -> (r: u32)
    ensures
        r == 10,
{
    10
}

pub fn default_acquire_timeout() -> (r: u64)
    ensures
        r == 5,
{
    5
}

pub fn default_session_cookie() -> (r: String)
    ensures
        r@ == "sessionid"@,
{
    owned("sessionid")
}

pub fn default_log_path() -> (r: String)
    ensures
        r@ == "./logs"@,
{
    owned("./logs")
}

pub fn default_log_filter() -> (r: String)
    ensures
        r@ == "info,tower_http=debug"@,
{
    owned("info,tower_http=debug")
}

pub fn default_log_max_files() -> (r: u32)
    ensures
        r == 14,
{
    14
}

#[derive(Debug, Clone)]
pub struct ServerConfig {
    pub host: String,
    pub port: u16,
    pub allow_origins: Vec<String>,
}

#[derive(Debug, Clone)]
pub struct DatabaseConfig {
    pub url: String,
    pub max_connections: u32,
    pub acquire_timeout_secs: u64,
}

#[derive(Debug, Clone)]
pub struct RedisConfig {
    pub url: String,
}

#[derive(Debug, Clone)]
pub struct StorageConfig {
    pub path: String,
}

#[derive(Debug, Clone)]
pub struct AuthConfig {
    pub frontend_url: String,
    pub callback_url: String,
    pub settings_callback_url: String,
    pub error_callback_url: String,
    pub frontend_api_key: String,
    pub session_cookie_name: String,
}

#[derive(Debug, Clone)]
pub struct SentryConfig {
    pub environment: Option<String>,
    pub dsn: String,
}

#[derive(Debug, Clone)]
pub struct LoggingConfig {
    pub path: String,
    pub filter: String,
    pub max_files: u32,
}

#[derive(Debug, Clone)]
pub struct GithubConfig {
    pub client_id: String,
    pub client_secret: String,
}

#[derive(Debug, Clone)]
pub struct ModrinthConfig {
    pub client_id: String,
    pub client_secret: String,
}

#[derive(Debug, Clone)]
pub struct CrowdinConfig {
    pub token: String,
    pub project_id: String,
}

#[derive(Debug, Clone)]
pub struct CurseForgeConfig {
    pub api_key: String,
}

#[derive(Debug, Clone)]
pub struct SearchConfig {
    pub url: String,
    pub api_key: String,
    pub collection: String,
}

#[derive(Debug, Clone, Default)]
pub struct DiscordConfig {
    pub webhook_url: Option<String>,
}

/// The whole configuration of the service.
#[derive(Debug, Clone)]
pub struct Config {
    pub server: ServerConfig,
    pub database: DatabaseConfig,
    pub redis: RedisConfig,
    pub storage: StorageConfig,
    pub auth: AuthConfig,
    pub sentry: SentryConfig,
    pub logging: LoggingConfig,
    pub github: GithubConfig,
    pub modrinth: ModrinthConfig,
    pub crowdin: CrowdinConfig,
    pub curseforge: CurseForgeConfig,
    pub discord: DiscordConfig,
    pub search: Option<SearchConfig>,
    pub app_url: String,
    pub local: bool,
    pub api_key: String,
}

/// The rules of `section.field`, for a value that must not be empty.
pub open spec fn non_empty_rule(section: Seq<char>, field: Seq<char>, value: Seq<char>) -> Seq<
    (Seq<char>, Rule),
> {
    if value.len() == 0 {
        seq![(section + "."@ + field, Rule::Length)]
    } else {
        Seq::empty()
    }
}

pub open spec fn url_rule(section: Seq<char>, field: Seq<char>, value: Seq<char>) -> Seq<
    (Seq<char>, Rule),
> {
    if !is_url(value) {
        seq![(section + "."@ + field, Rule::Url)]
    } else {
        Seq::empty()
    }
}

pub open spec fn range_rule(section: Seq<char>, field: Seq<char>, ok: bool) -> Seq<(Seq<char>, Rule)> {
    if !ok {
        seq![(section + "."@ + field, Rule::Range)]
    } else {
        Seq::empty()
    }
}

/// Every broken rule of a configuration, section by section, field by field.
pub open spec fn spec_violations(c: Config) -> Seq<(Seq<char>, Rule)> {
    range_rule("server"@, "port"@, c.server.port >= 1)
    + non_empty_rule("database"@, "url"@, c.database.url@)
    + range_rule("database"@, "max_connections"@, 1 <= c.database.max_connections <= 100)
    + range_rule("database"@, "acquire_timeout_secs"@, c.database.acquire_timeout_secs >= 1)
    + non_empty_rule("redis"@, "url"@, c.redis.url@)
    + non_empty_rule("storage"@, "path"@, c.storage.path@)
    + url_rule("auth"@, "frontend_url"@, c.auth.frontend_url@)
    + url_rule("auth"@, "callback_url"@, c.auth.callback_url@)
    + url_rule("auth"@, "settings_callback_url"@, c.auth.settings_callback_url@)
    + url_rule("auth"@, "error_callback_url"@, c.auth.error_callback_url@)
    + range_rule("logging"@, "max_files"@, c.logging.max_files >= 1)
    + non_empty_rule("github"@, "client_id"@, c.github.client_id@)
    + non_empty_rule("github"@, "client_secret"@, c.github.client_secret@)
    + non_empty_rule("modrinth"@, "client_id"@, c.modrinth.client_id@)
    + non_empty_rule("modrinth"@, "client_secret"@, c.modrinth.client_secret@)
    + non_empty_rule("crowdin"@, "token"@, c.crowdin.token@)
    + non_empty_rule("crowdin"@, "project_id"@, c.crowdin.project_id@)
    + non_empty_rule("curseforge"@, "api_key"@, c.curseforge.api_key@)
    + match c.discord.webhook_url {
        Some(u) => url_rule("discord"@, "webhook_url"@, u@),
        None => Seq::empty(),
    }
    + match c.search {
        Some(s) => url_rule("search"@, "url"@, s.url@) + non_empty_rule("search"@, "api_key"@, s.api_key@)
            + non_empty_rule("search"@, "collection"@, s.collection@),
        None => Seq::empty(),
    }
}

fn check_non_empty(out: &mut Vec<Violation>, section: &str, field: &str, value: &str)
    ensures
        violation_views(final(out)@) == violation_views(old(out)@) + non_empty_rule(section@, field@, value@),
{
    if value.is_empty() {
        push_violation(out, section, field, Rule::Length);
    } else {
        assert(violation_views(out@) + Seq::<(Seq<char>, Rule)>::empty() =~= violation_views(out@));
    }
}

fn check_url(out: &mut Vec<Violation>, section: &str, field: &str, value: &str)
    ensures
        violation_views(final(out)@) == violation_views(old(out)@) + url_rule(section@, field@, value@),
{
    if !parses_as_url(value) {
        push_violation(out, section, field, Rule::Url);
    } else {
        assert(violation_views(out@) + Seq::<(Seq<char>, Rule)>::empty() =~= violation_views(out@));
    }
}

fn check_range(out: &mut Vec<Violation>, section: &str, field: &str, ok: bool)
    ensures
        violation_views(final(out)@) == violation_views(old(out)@) + range_rule(section@, field@, ok),
{
    if !ok {
        push_violation(out, section, field, Rule::Range);
    } else {
        assert(violation_views(out@) + Seq::<(Seq<char>, Rule)>::empty() =~= violation_views(out@));
    }
}

impl Config {
    /// The rules the configuration breaks; it is valid when there are none.
    pub fn violations(&self) -> (r: Vec<Violation>)
        ensures
            violation_views(r@) =~= spec_violations(*self),
    {
        let mut out: Vec<Violation> = Vec::new();
        assert(violation_views(out@) =~= Seq::<(Seq<char>, Rule)>::empty());
        check_range(&mut out, "server", "port", self.server.port >= 1);
        check_non_empty(&mut out, "database", "url", self.database.url.as_str());
        check_range(
            &mut out,
            "database",
            "max_connections",
            1 <= self.database.max_connections && self.database.max_connections <= 100,
        );
        check_range(&mut out, "database", "acquire_timeout_secs", self.database.acquire_timeout_secs >= 1);
        check_non_empty(&mut out, "redis", "url", self.redis.url.as_str());
        check_non_empty(&mut out, "storage", "path", self.storage.path.as_str());
        check_url(&mut out, "auth", "frontend_url", self.auth.frontend_url.as_str());
        check_url(&mut out, "auth", "callback_url", self.auth.callback_url.as_str());
        check_url(&mut out, "auth", "settings_callback_url", self.auth.settings_callback_url.as_str());
        check_url(&mut out, "auth", "error_callback_url", self.auth.error_callback_url.as_str());
        check_range(&mut out, "logging", "max_files", self.logging.max_files >= 1);
        check_non_empty(&mut out, "github", "client_id", self.github.client_id.as_str());
        check_non_empty(&mut out, "github", "client_secret", self.github.client_secret.as_str());
        check_non_empty(&mut out, "modrinth", "client_id", self.modrinth.client_id.as_str());
        check_non_empty(&mut out, "modrinth", "client_secret", self.modrinth.client_secret.as_str());
        check_non_empty(&mut out, "crowdin", "token", self.crowdin.token.as_str());
        check_non_empty(&mut out, "crowdin", "project_id", self.crowdin.project_id.as_str());
        check_non_empty(&mut out, "curseforge", "api_key", self.curseforge.api_key.as_str());
        let ghost mid = violation_views(out@);
        match &self.discord.webhook_url {
            Some(u) => check_url(&mut out, "discord", "webhook_url", u.as_str()),
            None => {
                assert(mid + Seq::<(Seq<char>, Rule)>::empty() =~= mid);
            },
        }
        let ghost mid2 = violation_views(out@);
        match &self.search {
            Some(s) => {
                check_url(&mut out, "search", "url", s.url.as_str());
                check_non_empty(&mut out, "search", "api_key", s.api_key.as_str());
                check_non_empty(&mut out, "search", "collection", s.collection.as_str());
            },
            None => {
                assert(mid2 + Seq::<(Seq<char>, Rule)>::empty() =~= mid2);
            },
        }
        out
    }

    /// Whether the configuration breaks no rule.
    pub fn is_valid(&self) -> (r: bool)
        ensures
            r == (spec_violations(*self).len() == 0),
    {
        self.violations().len() == 0
    }
}

} // verus!
