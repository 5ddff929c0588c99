use vstd::prelude::*;
use vstd::string::*;
use std::sync::Arc;
use crate::json::JsonValue;
use crate::params::same_text;

verus! {

/// Where the server listens.
pub struct ServerConfig {
    pub host: String,
    pub port: u16,
}

/// The host listened on when none is configured.
pub fn default_host() -> (r: String)
    ensures
        r@ == "0.0.0.0"@,
{
    String::from_str("0.0.0.0")
}

/// The port listened on when none is configured.
pub fn default_port() -> (r: u16)
    ensures
        r == 3000,
{
    3000
}

impl Default for ServerConfig {
    fn default() -> (r: ServerConfig)
        ensures
            r.host@ == "0.0.0.0"@,
            r.port == 3000,
    {
        ServerConfig { host: default_host(), port: default_port() }
    }
}

/// The method of an endpoint that names none.
pub fn default_method() -> (r: String)
    ensures
        r@ == "GET"@,
{
    String::from_str("GET")
}

/// The status of a response that names none.
pub fn default_status() -> (r: u16)
    ensures
        r == 200,
{
    200
}

/// A response: status code, headers (name, value) and a body template.
pub struct ResponseConfig {
    pub status: u16,
    pub headers: Vec<(String, String)>,
    pub body: JsonValue,
}

/// A delay in milliseconds: fixed, or drawn from an inclusive range.
pub enum DelayConfig {
    Fixed(u64),
    Range { delay_type: Option<String>, min: u64, max: u64 },
}

/// Checks declared for a path parameter; not consulted when requests are served.
pub struct ParamValidation {
    pub pattern: Option<String>,
    pub required: bool,
}

/// A validation block; not consulted when requests are served.
pub struct ValidationConfig {
    pub params: Vec<(String, ParamValidation)>,
    pub body: Option<JsonValue>,
    pub headers: Vec<(String, String)>,
}

/// The test of a conditional response: a path parameter or a header
/// compared with `equals` or `contains`.
pub struct ConditionCheck {
    pub param: Option<String>,
    pub header: Option<String>,
    pub body_field: Option<String>,
    pub equals: Option<String>,
    pub contains: Option<String>,
    pub matches: Option<String>,
}

/// A response used in place of the default one when its check holds.
pub struct ConditionConfig {
    pub condition: ConditionCheck,
    pub response: ResponseConfig,
}

/// One endpoint: path pattern, method, default response, optional delay,
/// timeout flag, validation block and ordered conditional responses.
pub struct EndpointConfig {
    pub path: String,
    pub method: String,
    pub response: ResponseConfig,
    pub delay: Option<DelayConfig>,
    pub timeout: bool,
    pub validation: Option<ValidationConfig>,
    pub conditions: Vec<ConditionConfig>,
}

/// The whole configuration: server settings and the ordered endpoint table.
pub struct MockConfig {
    pub server: ServerConfig,
    pub endpoints: Vec<EndpointConfig>,
}

impl Default for MockConfig {
    fn default() -> (r: MockConfig)
        ensures
            r.server.host@ == "0.0.0.0"@,
            r.server.port == 3000,
            r.endpoints.len() == 0,
    {
        MockConfig { server: ServerConfig::default(), endpoints: Vec::new() }
    }
}

/// Relies on `Arc::clone`: a new handle to the same value.
#[verifier::external_body]
fn share(a: &Arc<MockConfig>) -> (r: Arc<MockConfig>)
    ensures
        *r == **a,
{
    Arc::clone(a)
}

/// The configuration that a write to the configuration store leaves: a
/// parsed configuration replaces the current one; a missing or invalid one
/// leaves it as it was.
pub open spec fn after_write(current: MockConfig, parsed: Option<Result<MockConfig, String>>) -> MockConfig {
    match parsed {
        Some(Ok(c)) => c,
        _ => current,
    }
}

/// The configuration store. Each snapshot is an immutable shared value that
/// stays as it was when later writes install new configurations.
pub struct ConfigManager {
    config: Arc<MockConfig>,
    config_path: String,
}

impl ConfigManager {
    /// The configuration currently installed.
    pub closed spec fn current(&self) -> MockConfig {
        *self.config
    }

    /// The source the configuration is reloaded from.
    pub closed spec fn source(&self) -> Seq<char> {
        self.config_path@
    }

    /// A store holding `config`, loaded from `path`.
    pub fn new(path: &str, config: MockConfig) -> (r: ConfigManager)
        ensures
            r.current() == config,
            r.source() == path@,
    {
        ConfigManager { config: Arc::new(config), config_path: String::from_str(path) }
    }

    /// A snapshot of the current configuration.
    pub fn get_config(&self) -> (r: Arc<MockConfig>)
        ensures
            *r == self.current(),
    {
        share(&self.config)
    }

    /// The source the configuration is reloaded from.
    pub fn config_path(&self) -> (r: &str)
        ensures
            r@ == self.source(),
    {
        self.config_path.as_str()
    }

    /// Installs `new_config` in place of the current configuration.
    pub fn update_config(&mut self, new_config: MockConfig)
        ensures
            final(self).current() == new_config,
            final(self).source() == old(self).source(),
    {
        self.config = Arc::new(new_config);
    }

    /// Installs a freshly loaded configuration; where loading failed, keeps
    /// the current one and hands the error back.
    pub fn reload(&mut self, loaded: Result<MockConfig, String>) -> (r: Result<(), String>)
        ensures
            final(self).source() == old(self).source(),
            match loaded {
                Ok(c) => r is Ok && final(self).current() == c,
                Err(e) => r == Err::<(), String>(e) && final(self).current() == old(self).current(),
            },
    {
        match loaded {
            Ok(c) => {
                self.update_config(c);
                Ok(())
            },
            Err(e) => Err(e),
        }
    }

    /// Applies a write of the whole configuration: `None` where the request
    /// had no body, `Some(Err(..))` where it did not parse. Returns the new
    /// endpoint count on success, and the error otherwise.
    pub fn write_config(&mut self, parsed: Option<Result<MockConfig, String>>) -> (r: Result<usize, ConfigWriteError>)
        ensures
            final(self).current() == after_write(old(self).current(), parsed),
            final(self).source() == old(self).source(),
            match parsed {
                Some(Ok(c)) => r == Ok::<usize, ConfigWriteError>(c.endpoints.len()),
                Some(Err(e)) => r == Err::<usize, ConfigWriteError>(ConfigWriteError::Invalid(e)),
                None => r == Err::<usize, ConfigWriteError>(ConfigWriteError::MissingBody),
            },
    {
        match parsed {
            Some(Ok(c)) => {
                let n = c.endpoints.len();
                self.update_config(c);
                Ok(n)
            },
            Some(Err(e)) => Err(ConfigWriteError::Invalid(e)),
            None => Err(ConfigWriteError::MissingBody),
        }
    }

    /// The number of endpoints in the current configuration.
    pub fn endpoint_count(&self) -> (r: usize)
        ensures
            r == self.current().endpoints.len(),
    {
        self.config.endpoints.len()
    }
}

/// Why a write of the configuration was refused.
pub enum ConfigWriteError {
    MissingBody,
    Invalid(String),
}

/// A write whose body is missing or does not parse leaves the configuration,
/// and so its endpoint count, as it was.
pub proof fn law_failed_write_keeps_config(current: MockConfig, error: String)
    ensures
        after_write(current, Some(Err(error))) == current,
        after_write(current, None) == current,
        after_write(current, Some(Err(error))).endpoints.len() == current.endpoints.len(),
{
}

/// The place of the last `c` in `s`, or -1.
pub open spec fn last_index_of(s: Seq<char>, c: char) -> int
    decreases s.len(),
{
    if s.len() == 0 {
        -1
    } else if s.last() == c {
        s.len() - 1
    } else {
        last_index_of(s.drop_last(), c)
    }
}

proof fn lemma_last_index_of(s: Seq<char>, c: char)
    ensures
        -1 <= last_index_of(s, c) < s.len(),
    decreases s.len(),
{
    if s.len() > 0 {
        lemma_last_index_of(s.drop_last(), c);
    }
}

/// The extension of the last component of a path: what follows its last
/// `.`, where that dot is not the component's first character.
pub open spec fn extension_of(p: Seq<char>) -> Option<Seq<char>> {
    let f = p.subrange(last_index_of(p, '/') + 1, p.len() as int);
    let d = last_index_of(f, '.');
    if d > 0 {
        Some(f.subrange(d + 1, f.len() as int))
    } else {
        None
    }
}

/// The formats a configuration file can be written in.
#[derive(PartialEq, Eq, Structural, Clone, Copy, Debug)]
pub enum ConfigFormat {
    Yaml,
    Json,
}

pub open spec fn format_spec(p: Seq<char>) -> Option<ConfigFormat> {
    match extension_of(p) {
        Some(e) => if e == "yaml"@ || e == "yml"@ {
            Some(ConfigFormat::Yaml)
        } else if e == "json"@ {
            Some(ConfigFormat::Json)
        } else {
            None
        },
        None => None,
    }
}

fn find_last(s: &str, c: char) -> (r: usize)
    ensures
        r as int == last_index_of(s@, c) + 1,
{
    proof { lemma_last_index_of(s@, c); }
    let mut i: usize = s.unicode_len();
    assert(s@.subrange(0, i as int) == s@);
    while i > 0
        invariant
            i <= s@.len(),
            last_index_of(s@, c) == last_index_of(s@.subrange(0, i as int), c),
        decreases i,
    {
        assert(s@.subrange(0, i as int).drop_last() == s@.subrange(0, i - 1));
        if s.get_char(i - 1) == c {
            return i;
        }
        i = i - 1;
    }
    0
}

/// The format that a configuration file's extension names, if any.
pub fn config_format(path: &str) -> (r: Option<ConfigFormat>)
    ensures
        r == format_spec(path@),
{
    proof { lemma_last_index_of(path@, '/'); }
    let start = find_last(path, '/');
    let name = path.substring_char(start, path.unicode_len());
    proof { lemma_last_index_of(name@, '.'); }
    let dot = find_last(name, '.');
    if dot <= 1 {
        return None;
    }
    let ext = name.substring_char(dot, name.unicode_len());
    if same_text(ext, "yaml") || same_text(ext, "yml") {
        Some(ConfigFormat::Yaml)
    } else if same_text(ext, "json") {
        Some(ConfigFormat::Json)
    } else {
        None
    }
}

} // verus!
