//! The configuration file: what it may say, and where it is looked for.

use crate::text::{
    blank, decimal, decimal_digits, has_white_space, is_blank, is_white_space,
    law_decimal_digits_tell_numbers_apart, same,
};
use vstd::prelude::*;
use vstd::string::*;
use vstd::utf8::*;

verus! {

/// The settings of a run.
#[derive(Debug, PartialEq, Eq)]
pub struct Config {
    pub model: ModelConfig,
    pub limits: Limits,
    pub logging: LoggingConfig,
}

/// Where log lines go and which are kept.
#[derive(Debug, PartialEq, Eq)]
pub struct LoggingConfig {
    pub level: String,
    pub directory: String,
}

/// The model to ask.
#[derive(Debug, PartialEq, Eq)]
pub struct ModelConfig {
    pub endpoint: Endpoint,
    pub api_key: String,
    pub name: String,
    pub reasoning_effort: ReasoningEffort,
}

/// How hard the model should think.
#[derive(Debug, Clone, Copy, PartialEq, Eq)]
pub enum ReasoningEffort {
    Low,
    Medium,
    High,
    Xhigh,
    Max,
    Ultra,
}

/// The bounds of a run.
#[derive(Debug, PartialEq, Eq)]
pub struct Limits {
    pub max_model_requests: u32,
    pub request_timeout_secs: u64,
    pub max_output_tokens: u32,
    pub max_file_bytes: u64,
}

/// A parsed URL: its normal form and the parts of it that are looked at.
#[derive(Debug, PartialEq, Eq)]
pub struct Endpoint {
    pub url: String,
    pub scheme: String,
    pub host: Option<String>,
    pub username: String,
    pub password: Option<String>,
    pub path: String,
    pub fragment: Option<String>,
}

/// What the parts of a URL say.
pub struct EndpointView {
    pub url: Seq<char>,
    pub scheme: Seq<char>,
    pub host: Option<Seq<char>>,
    pub username: Seq<char>,
    pub password: Option<Seq<char>>,
    pub path: Seq<char>,
    pub fragment: Option<Seq<char>>,
}

/// What an optional text says.
pub open spec fn option_view(s: Option<String>) -> Option<Seq<char>> {
    match s {
        Some(s) => Some(s@),
        None => None,
    }
}

impl View for Endpoint {
    type V = EndpointView;

    open spec fn view(&self) -> EndpointView {
        EndpointView {
            url: self.url@,
            scheme: self.scheme@,
            host: option_view(self.host),
            username: self.username@,
            password: option_view(self.password),
            path: self.path@,
            fragment: option_view(self.fragment),
        }
    }
}

/// The parts that `Url` finds in a text, where it can parse it.
pub uninterp spec fn url_parts(text: Seq<char>) -> Option<EndpointView>;

/// Calls `reqwest::Url::parse` and takes the parts of the result. Claims that the outcome is
/// a function of the text.
#[verifier::external_body]
fn parse_url(text: &str) -> (r: Option<Endpoint>)
    ensures
        match r {
            Some(endpoint) => url_parts(text@) == Some(endpoint@),
            None => url_parts(text@) is None,
        },
{
    match reqwest::Url::parse(text) {
        Ok(url) => Some(Endpoint {
            url: url.as_str().to_owned(),
            scheme: url.scheme().to_owned(),
            host: url.host_str().map(str::to_owned),
            username: url.username().to_owned(),
            password: url.password().map(str::to_owned),
            path: url.path().to_owned(),
            fragment: url.fragment().map(str::to_owned),
        }),
        Err(_) => None,
    }
}

/// Whether a byte may stand in the value of a header.
pub open spec fn is_header_byte(b: u8) -> bool {
    (b >= 32 && b != 127) || b == 9
}

/// Whether a text may be the value of a header: no byte of it is a control character other
/// than the tab.
pub open spec fn is_header_text(text: Seq<char>) -> bool {
    forall|i: int|
        0 <= i < encode_utf8(text).len() ==> is_header_byte(#[trigger] encode_utf8(text)[i])
}

/// Calls `reqwest::header::HeaderValue::from_str`. Claims that it accepts exactly the texts
/// whose bytes are all tabs or at least 32 and not 127.
#[verifier::external_body]
fn accepted_as_header(text: &str) -> (r: bool)
    ensures
        r == is_header_text(text@),
{
    reqwest::header::HeaderValue::from_str(text).is_ok()
}

/// `c`, or its lower case where it is an ASCII capital.
pub open spec fn ascii_lower(c: char) -> char {
    if 'A' <= c <= 'Z' {
        ((c as int) + 32) as char
    } else {
        c
    }
}

/// Whether a text is a word, where the case of ASCII letters does not count.
pub open spec fn is_word(text: Seq<char>, word: Seq<char>) -> bool {
    text.map_values(|c: char| ascii_lower(c)) == word
}

/// Whether a text is a number from 0 to 5 in decimal digits, perhaps after a plus sign.
pub open spec fn is_level_number(text: Seq<char>) -> bool {
    let digits = if text.len() > 0 && text[0] == '+' {
        text.drop_first()
    } else {
        text
    };
    &&& digits.len() > 0
    &&& '0' <= digits.last() <= '5'
    &&& forall|i: int| 0 <= i < digits.len() - 1 ==> #[trigger] digits[i] == '0'
}

/// Whether a text names a level of logging.
pub open spec fn names_level(text: Seq<char>) -> bool {
    ||| text.len() == 0
    ||| is_word(text, "off"@)
    ||| is_word(text, "error"@)
    ||| is_word(text, "warn"@)
    ||| is_word(text, "info"@)
    ||| is_word(text, "debug"@)
    ||| is_word(text, "trace"@)
    ||| is_level_number(text)
}

/// Calls `FromStr` of `tracing_subscriber::filter::LevelFilter`. Claims that it accepts the
/// empty text, the six names in any case, and the numbers up to 5.
#[verifier::external_body]
fn accepted_as_level(text: &str) -> (r: bool)
    ensures
        r == names_level(text@),
{
    text.parse::<tracing_subscriber::filter::LevelFilter>().is_ok()
}

impl Default for LoggingConfig {
    fn default() -> (r: LoggingConfig)
        ensures
            r.level@ == "info"@,
            r.directory@ == "logs"@,
    {
        LoggingConfig { level: "info".to_owned(), directory: "logs".to_owned() }
    }
}

impl ReasoningEffort {
    /// The name of the effort.
    pub open spec fn spec_name(self) -> Seq<char> {
        match self {
            ReasoningEffort::Low => "low"@,
            ReasoningEffort::Medium => "medium"@,
            ReasoningEffort::High => "high"@,
            ReasoningEffort::Xhigh => "xhigh"@,
            ReasoningEffort::Max => "max"@,
            ReasoningEffort::Ultra => "ultra"@,
        }
    }

    /// Returns the name of the effort.
    pub fn name(&self) -> (r: &'static str)
        ensures
            r@ == self.spec_name(),
    {
        match self {
            ReasoningEffort::Low => "low",
            ReasoningEffort::Medium => "medium",
            ReasoningEffort::High => "high",
            ReasoningEffort::Xhigh => "xhigh",
            ReasoningEffort::Max => "max",
            ReasoningEffort::Ultra => "ultra",
        }
    }
}

/// Parses the URL of an endpoint.
pub fn deserialize_endpoint(text: &str) -> (r: Option<Endpoint>)
    ensures
        match r {
            Some(endpoint) => url_parts(text@) == Some(endpoint@),
            None => url_parts(text@) is None,
        },
{
    parse_url(text)
}

/// Why a configuration was refused. The first check that fails is the one reported.
#[derive(Debug, Clone, Copy, PartialEq, Eq)]
pub enum ConfigError {
    /// Not TOML, or not the fields of a configuration; with the line, where it is known.
    Malformed(Option<u128>),
    Endpoint,
    EmptyName,
    EmptyKey,
    InvalidKey,
    ModelRequests,
    OutputTokens,
    RequestTimeout,
    FileBytes,
    EmptyLevel,
    UnknownLevel,
}

/// What is told of a file that could not be parsed.
pub const MALFORMED: &'static str =
    ": check TOML syntax, required fields, unknown fields and value types against config.example.toml";

impl ConfigError {
    /// What the user is told. No part of the configuration is in it.
    pub open spec fn text(self) -> Seq<char> {
        match self {
            ConfigError::Malformed(None) => "invalid config.toml"@ + MALFORMED@,
            ConfigError::Malformed(Some(line)) => "invalid config.toml"@ + " near line "@
                + decimal_digits(line as nat) + MALFORMED@,
            ConfigError::Endpoint =>
                "model.endpoint must be a complete HTTP(S) URL without embedded credentials or a fragment"@,
            ConfigError::EmptyName => "model.name must not be empty"@,
            ConfigError::EmptyKey => "model.api_key must not be empty; set it in config.toml"@,
            ConfigError::InvalidKey =>
                "model.api_key must be a valid authentication token without whitespace"@,
            ConfigError::ModelRequests => "limits.max_model_requests must be positive"@,
            ConfigError::OutputTokens => "limits.max_output_tokens must be positive"@,
            ConfigError::RequestTimeout =>
                "limits.request_timeout_secs must be positive and representable as both a deadline and milliseconds"@,
            ConfigError::FileBytes =>
                "limits.max_file_bytes must be positive and allow one extra byte within the addressable buffer size"@,
            ConfigError::EmptyLevel => "logging.level must not be empty"@,
            ConfigError::UnknownLevel =>
                "logging.level must be one of trace, debug, info, warn or error"@,
        }
    }

    /// Returns what the user is told.
    pub fn message(&self) -> (r: String)
        ensures
            r@ == self.text(),
    {
        let fixed: &str = match self {
            ConfigError::Malformed(line) => {
                let mut text: String = "invalid config.toml".to_owned();
                match line {
                    None => {},
                    Some(line) => {
                        text.append(" near line ");
                        text.append(decimal(*line).as_str());
                    },
                }
                text.append(MALFORMED);
                return text;
            },
            ConfigError::Endpoint =>
                "model.endpoint must be a complete HTTP(S) URL without embedded credentials or a fragment",
            ConfigError::EmptyName => "model.name must not be empty",
            ConfigError::EmptyKey => "model.api_key must not be empty; set it in config.toml",
            ConfigError::InvalidKey =>
                "model.api_key must be a valid authentication token without whitespace",
            ConfigError::ModelRequests => "limits.max_model_requests must be positive",
            ConfigError::OutputTokens => "limits.max_output_tokens must be positive",
            ConfigError::RequestTimeout =>
                "limits.request_timeout_secs must be positive and representable as both a deadline and milliseconds",
            ConfigError::FileBytes =>
                "limits.max_file_bytes must be positive and allow one extra byte within the addressable buffer size",
            ConfigError::EmptyLevel => "logging.level must not be empty",
            ConfigError::UnknownLevel =>
                "logging.level must be one of trace, debug, info, warn or error",
        };
        fixed.to_owned()
    }
}

/// Whether an endpoint is a web address without credentials or a fragment.
pub open spec fn is_web_address(endpoint: EndpointView) -> bool {
    &&& endpoint.scheme == "http"@ || endpoint.scheme == "https"@
    &&& endpoint.host is Some
    &&& endpoint.username.len() == 0
    &&& endpoint.password is None
    &&& endpoint.fragment is None
}

/// The value of the header that authenticates a request.
pub open spec fn bearer(api_key: Seq<char>) -> Seq<char> {
    "Bearer "@ + api_key
}

/// Whether a key can be sent: it holds no white space and no control character.
pub open spec fn is_token(api_key: Seq<char>) -> bool {
    &&& forall|i: int| 0 <= i < api_key.len() ==> !is_white_space(#[trigger] api_key[i])
    &&& is_header_text(bearer(api_key))
}

/// What is wrong with a configuration, if anything. `deadline_fits` says whether the clock
/// can hold the moment at which a request sent now times out.
pub open spec fn config_check(config: Config, deadline_fits: bool) -> Option<ConfigError> {
    if !is_web_address(config.model.endpoint@) {
        Some(ConfigError::Endpoint)
    } else if is_blank(config.model.name@) {
        Some(ConfigError::EmptyName)
    } else if is_blank(config.model.api_key@) {
        Some(ConfigError::EmptyKey)
    } else if !is_token(config.model.api_key@) {
        Some(ConfigError::InvalidKey)
    } else if config.limits.max_model_requests == 0 {
        Some(ConfigError::ModelRequests)
    } else if config.limits.max_output_tokens == 0 {
        Some(ConfigError::OutputTokens)
    } else if config.limits.request_timeout_secs == 0 || config.limits.request_timeout_secs * 1000
        > u64::MAX || !deadline_fits {
        Some(ConfigError::RequestTimeout)
    } else if config.limits.max_file_bytes == 0 || config.limits.max_file_bytes >= isize::MAX {
        Some(ConfigError::FileBytes)
    } else if is_blank(config.logging.level@) {
        Some(ConfigError::EmptyLevel)
    } else if !names_level(config.logging.level@) {
        Some(ConfigError::UnknownLevel)
    } else {
        None
    }
}

/// The number of line breaks among bytes.
pub open spec fn line_breaks(bytes: Seq<u8>) -> nat
    decreases bytes.len(),
{
    if bytes.len() == 0 {
        0
    } else if bytes.last() == 10 {
        line_breaks(bytes.drop_last()) + 1
    } else {
        line_breaks(bytes.drop_last())
    }
}

/// The line, counted from 1, on which the byte at `start` of a text stands.
pub open spec fn line_at(contents: Seq<char>, start: nat) -> nat {
    let bytes = encode_utf8(contents);
    let n = if start < bytes.len() {
        start as int
    } else {
        bytes.len() as int
    };
    line_breaks(bytes.take(n)) + 1
}

/// Finds the line, counted from 1, on which the byte at `start` stands.
fn line_of(contents: &str, start: usize) -> (r: u128)
    ensures
        r == line_at(contents@, start as nat),
{
    let bytes: &[u8] = contents.as_bytes();
    let n: usize = if start < bytes.len() {
        start
    } else {
        bytes.len()
    };
    let mut count: u128 = 0;
    for i in 0..n
        invariant
            n <= bytes@.len(),
            count <= i,
            count == line_breaks(bytes@.take(i as int)),
    {
        proof {
            assert(bytes@.take(i + 1).drop_last() =~= bytes@.take(i as int));
        }
        if bytes[i] == 10 {
            count = count + 1;
        }
    }
    count + 1
}

/// Checks the settings of a configuration.
pub fn check_config(config: &Config, deadline_fits: bool) -> (r: Result<(), ConfigError>)
    ensures
        match r {
            Ok(()) => config_check(*config, deadline_fits) is None,
            Err(error) => config_check(*config, deadline_fits) == Some(error),
        },
{
    let endpoint: &Endpoint = &config.model.endpoint;
    let scheme: &str = endpoint.scheme.as_str();
    if !((same(scheme, "http") || same(scheme, "https")) && endpoint.host.is_some()
        && endpoint.username.as_str().is_empty() && endpoint.password.is_none()
        && endpoint.fragment.is_none()) {
        return Err(ConfigError::Endpoint);
    }
    if blank(config.model.name.as_str()) {
        return Err(ConfigError::EmptyName);
    }
    if blank(config.model.api_key.as_str()) {
        return Err(ConfigError::EmptyKey);
    }
    if has_white_space(config.model.api_key.as_str()) || !accepted_as_header(
        bearer_header(config.model.api_key.as_str()).as_str(),
    ) {
        return Err(ConfigError::InvalidKey);
    }
    if config.limits.max_model_requests == 0 {
        return Err(ConfigError::ModelRequests);
    }
    if config.limits.max_output_tokens == 0 {
        return Err(ConfigError::OutputTokens);
    }
    if !(config.limits.request_timeout_secs > 0 && config.limits.request_timeout_secs.checked_mul(
        1000,
    ).is_some() && deadline_fits) {
        return Err(ConfigError::RequestTimeout);
    }
    if !(config.limits.max_file_bytes > 0 && config.limits.max_file_bytes < isize::MAX as u64) {
        return Err(ConfigError::FileBytes);
    }
    if blank(config.logging.level.as_str()) {
        return Err(ConfigError::EmptyLevel);
    }
    if !accepted_as_level(config.logging.level.as_str()) {
        return Err(ConfigError::UnknownLevel);
    }
    Ok(())
}

/// Makes the value of the header that authenticates a request.
pub fn bearer_header(api_key: &str) -> (r: String)
    ensures
        r@ == bearer(api_key@),
{
    let mut text: String = "Bearer ".to_owned();
    text.append(api_key);
    text
}

/// What a configuration file comes to. `parsed` is what the TOML parser made of `contents`:
/// the settings, or the byte at which it failed, where it knows.
pub open spec fn config_in(
    contents: Seq<char>,
    parsed: Result<Config, Option<usize>>,
    deadline_fits: bool,
) -> Result<Config, ConfigError> {
    match parsed {
        Err(None) => Err(ConfigError::Malformed(None)),
        Err(Some(start)) => Err(
            ConfigError::Malformed(Some(line_at(contents, start as nat) as u128)),
        ),
        Ok(config) => match config_check(config, deadline_fits) {
            Some(error) => Err(error),
            None => Ok(config),
        },
    }
}

/// Checks what the TOML parser made of a configuration file. Of a file that it could not
/// parse, only the line is told: its own report may quote the key.
pub fn parse_config(
    contents: &str,
    parsed: Result<Config, Option<usize>>,
    deadline_fits: bool,
) -> (r: Result<Config, ConfigError>)
    ensures
        r == config_in(contents@, parsed, deadline_fits),
{
    match parsed {
        Err(None) => Err(ConfigError::Malformed(None)),
        Err(Some(start)) => Err(ConfigError::Malformed(Some(line_of(contents, start)))),
        Ok(config) => match check_config(&config, deadline_fits) {
            Err(error) => Err(error),
            Ok(()) => Ok(config),
        },
    }
}

/// Where a configuration comes from.
#[derive(Debug, Clone, Copy, PartialEq, Eq)]
pub enum ConfigSource {
    /// The file that the command line names.
    Explicit,
    /// The file of the workspace.
    Workspace,
    /// The file of the user.
    User,
    /// The settings that come with the program.
    BuiltIn,
}

/// What to do next in search of a configuration.
#[derive(Debug, Clone, Copy, PartialEq, Eq)]
pub enum SearchStep {
    /// See whether there is a file of this source.
    Probe(ConfigSource),
    /// Use this source.
    Take(ConfigSource),
}

/// The first step of a search. `explicit` says whether the command line names a file.
pub open spec fn search_start(explicit: bool) -> SearchStep {
    if explicit {
        SearchStep::Take(ConfigSource::Explicit)
    } else {
        SearchStep::Probe(ConfigSource::Workspace)
    }
}

/// The step after a probe. `has_home` says whether the user has a home directory.
pub open spec fn search_after(probed: ConfigSource, is_file: bool, has_home: bool) -> SearchStep {
    if is_file {
        SearchStep::Take(probed)
    } else if probed is Workspace && has_home {
        SearchStep::Probe(ConfigSource::User)
    } else {
        SearchStep::Take(ConfigSource::BuiltIn)
    }
}

/// The source that is used, given what there is.
pub open spec fn chosen_source(
    explicit: bool,
    workspace_file: bool,
    has_home: bool,
    user_file: bool,
) -> ConfigSource {
    if explicit {
        ConfigSource::Explicit
    } else if workspace_file {
        ConfigSource::Workspace
    } else if has_home && user_file {
        ConfigSource::User
    } else {
        ConfigSource::BuiltIn
    }
}

/// Begins the search for a configuration.
pub fn load_config_for(explicit: bool) -> (r: SearchStep)
    ensures
        r == search_start(explicit),
{
    if explicit {
        SearchStep::Take(ConfigSource::Explicit)
    } else {
        SearchStep::Probe(ConfigSource::Workspace)
    }
}

/// Continues the search after a probe.
pub fn next_source(probed: ConfigSource, is_file: bool, has_home: bool) -> (r: SearchStep)
    ensures
        r == search_after(probed, is_file, has_home),
{
    if is_file {
        return SearchStep::Take(probed);
    }
    match probed {
        ConfigSource::Workspace => if has_home {
            SearchStep::Probe(ConfigSource::User)
        } else {
            SearchStep::Take(ConfigSource::BuiltIn)
        },
        _ => SearchStep::Take(ConfigSource::BuiltIn),
    }
}

/// A variable of the environment that may name the home directory.
#[derive(Debug, Clone, Copy, PartialEq, Eq)]
pub enum HomeVariable {
    Home,
    UserProfile,
}

impl HomeVariable {
    /// The name of the variable.
    pub open spec fn spec_name(self) -> Seq<char> {
        match self {
            HomeVariable::Home => "HOME"@,
            HomeVariable::UserProfile => "USERPROFILE"@,
        }
    }

    /// Returns the name of the variable.
    pub fn name(&self) -> (r: &'static str)
        ensures
            r@ == self.spec_name(),
    {
        match self {
            HomeVariable::Home => "HOME",
            HomeVariable::UserProfile => "USERPROFILE",
        }
    }
}

/// Chooses the variable that names the home directory, given which of them are set.
pub fn home_variable(has_home: bool, has_profile: bool) -> (r: Option<HomeVariable>)
    ensures
        r == (if has_home {
            Some(HomeVariable::Home)
        } else if has_profile {
            Some(HomeVariable::UserProfile)
        } else {
            None
        }),
{
    if has_home {
        Some(HomeVariable::Home)
    } else if has_profile {
        Some(HomeVariable::UserProfile)
    } else {
        None
    }
}

/// The names that lead from the home directory to the file of the user.
pub open spec fn user_config_names() -> Seq<Seq<char>> {
    seq!["gerabox"@, "config.toml"@]
}

/// Returns the names that lead from the home directory to the file of the user.
pub fn user_config_path() -> (r: Vec<&'static str>)
    ensures
        r@.map_values(|name: &'static str| name@) == user_config_names(),
{
    let mut names: Vec<&'static str> = Vec::new();
    names.push("gerabox");
    names.push("config.toml");
    assert(names@.map_values(|name: &'static str| name@) =~= user_config_names());
    names
}

/// A search ends at the file that the command line names, else at the file of the workspace,
/// else at that of the user, else at the built-in settings.
pub proof fn law_search_order(
    explicit: bool,
    workspace_file: bool,
    has_home: bool,
    user_file: bool,
)
    ensures
        ({
            let first = search_start(explicit);
            let second = search_after(ConfigSource::Workspace, workspace_file, has_home);
            let third = search_after(ConfigSource::User, user_file, has_home);
            let last = if first is Take {
                first
            } else if second is Take {
                second
            } else {
                third
            };
            &&& first is Probe ==> first->Probe_0 is Workspace
            &&& second is Probe ==> second->Probe_0 is User
            &&& last == SearchStep::Take(
                chosen_source(explicit, workspace_file, has_home, user_file),
            )
        }),
{
}

/// An accepted configuration meets every bound that a run relies on: the key can be sent, at
/// least one request is allowed, and a file that fills the limit leaves room for one byte.
pub proof fn law_accepted_config_is_usable(
    contents: Seq<char>,
    parsed: Result<Config, Option<usize>>,
    deadline_fits: bool,
)
    requires
        config_in(contents, parsed, deadline_fits) is Ok,
    ensures
        ({
            let config = config_in(contents, parsed, deadline_fits)->Ok_0;
            &&& parsed == Ok::<Config, Option<usize>>(config)
            &&& is_web_address(config.model.endpoint@)
            &&& !is_blank(config.model.name@)
            &&& is_header_text(bearer(config.model.api_key@))
            &&& config.limits.max_model_requests > 0
            &&& config.limits.max_output_tokens > 0
            &&& 0 < config.limits.request_timeout_secs
            &&& config.limits.request_timeout_secs * 1000 <= u64::MAX
            &&& 0 < config.limits.max_file_bytes
            &&& config.limits.max_file_bytes + 1 <= isize::MAX
            &&& names_level(config.logging.level@)
        }),
{
}

/// A refusal says nothing of the key but whether it is blank and whether it can be sent: with
/// any other key of which the same is true, the configuration is refused with the same words.
pub proof fn law_refusal_hides_the_key(config: Config, api_key: String, deadline_fits: bool)
    requires
        is_blank(api_key@) == is_blank(config.model.api_key@),
        is_token(api_key@) == is_token(config.model.api_key@),
    ensures
        ({
            let other = Config { model: ModelConfig { api_key, ..config.model }, ..config };
            config_check(other, deadline_fits) == config_check(config, deadline_fits)
        }),
{
}

/// Of a file that could not be parsed, nothing is told but the line: two files that fail on
/// the same line are refused with the same words.
pub proof fn law_malformed_file_is_not_quoted(
    contents: Seq<char>,
    other: Seq<char>,
    start: usize,
    other_start: usize,
    deadline_fits: bool,
)
    requires
        line_at(contents, start as nat) == line_at(other, other_start as nat),
    ensures
        config_in(contents, Err(Some(start)), deadline_fits) is Err,
        config_in(contents, Err(Some(start)), deadline_fits)->Err_0.text() == config_in(
            other,
            Err(Some(other_start)),
            deadline_fits,
        )->Err_0.text(),
{
}

/// Settings are accepted, and then as they are, exactly where all of this holds; otherwise the
/// first of it that does not hold is reported. The endpoint is a web address without credentials
/// or a fragment. The name and the key are not blank. The key has no white space and makes a
/// header without control characters. Requests, output tokens, seconds and bytes are positive,
/// and nothing bounds them from above but that the time fits in milliseconds and as a deadline,
/// and that one byte more than the limit can be addressed. The level is not blank and is one.
pub proof fn law_usable_config_is_accepted(
    contents: Seq<char>,
    config: Config,
    deadline_fits: bool,
)
    ensures
        ({
            let r = config_in(contents, Ok(config), deadline_fits);
            let endpoint = config.model.endpoint;
            let name = config.model.name@;
            let key = config.model.api_key@;
            let level = config.logging.level@;
            let header = encode_utf8("Bearer "@ + key);
            let limits = config.limits;
            let web = {
                &&& endpoint.scheme@ == "http"@ || endpoint.scheme@ == "https"@
                &&& endpoint.host is Some
                &&& endpoint.username@.len() == 0
                &&& endpoint.password is None
                &&& endpoint.fragment is None
            };
            let named = exists|i: int| 0 <= i < name.len() && !is_white_space(#[trigger] name[i]);
            let keyed = exists|i: int| 0 <= i < key.len() && !is_white_space(#[trigger] key[i]);
            let sendable = {
                &&& forall|i: int| 0 <= i < key.len() ==> !is_white_space(#[trigger] key[i])
                &&& forall|i: int|
                    0 <= i < header.len() ==> (#[trigger] header[i] == 9 || 32 <= header[i]
                        < 127 || header[i] > 127)
            };
            let timed = 0 < limits.request_timeout_secs && limits.request_timeout_secs * 1000
                <= u64::MAX && deadline_fits;
            let sized = 0 < limits.max_file_bytes && limits.max_file_bytes + 1 <= isize::MAX;
            let leveled = exists|i: int|
                0 <= i < level.len() && !is_white_space(#[trigger] level[i]);
            &&& r is Ok <==> {
                &&& web
                &&& named
                &&& keyed
                &&& sendable
                &&& limits.max_model_requests > 0
                &&& limits.max_output_tokens > 0
                &&& timed
                &&& sized
                &&& leveled
                &&& names_level(level)
            }
            &&& r is Ok ==> r->Ok_0 == config
            &&& r is Err ==> r->Err_0 == (if !web {
                ConfigError::Endpoint
            } else if !named {
                ConfigError::EmptyName
            } else if !keyed {
                ConfigError::EmptyKey
            } else if !sendable {
                ConfigError::InvalidKey
            } else if limits.max_model_requests == 0 {
                ConfigError::ModelRequests
            } else if limits.max_output_tokens == 0 {
                ConfigError::OutputTokens
            } else if !timed {
                ConfigError::RequestTimeout
            } else if !sized {
                ConfigError::FileBytes
            } else if !leveled {
                ConfigError::EmptyLevel
            } else {
                ConfigError::UnknownLevel
            })
        }),
{
    let header = encode_utf8("Bearer "@ + config.model.api_key@);
    assert(forall|i: int|
        0 <= i < header.len() ==> is_header_byte(#[trigger] header[i]) == (header[i] == 9 || 32
            <= header[i] < 127 || header[i] > 127));
}

/// Each of the levels that the user is told of is one, and so is `off`, with small letters or
/// capitals at any place.
pub proof fn law_levels_are_named_in_any_case(text: Seq<char>, word: Seq<char>)
    requires
        ({
            ||| word == "trace"@
            ||| word == "debug"@
            ||| word == "info"@
            ||| word == "warn"@
            ||| word == "error"@
            ||| word == "off"@
        }),
        text.len() == word.len(),
        forall|i: int|
            0 <= i < word.len() ==> #[trigger] text[i] == word[i] || text[i] as int + 32
                == word[i] as int,
    ensures
        names_level(text),
{
    reveal_strlit("trace");
    reveal_strlit("debug");
    reveal_strlit("info");
    reveal_strlit("warn");
    reveal_strlit("error");
    reveal_strlit("off");
    assert(forall|i: int| 0 <= i < word.len() ==> 'a' <= #[trigger] word[i] <= 'z');
    let lower = text.map_values(|c: char| ascii_lower(c));
    assert forall|i: int| 0 <= i < word.len() implies lower[i] == #[trigger] word[i] by {
        assert(text[i] == word[i] || text[i] as int + 32 == word[i] as int);
    }
    assert(lower =~= word);
}

/// The header carries the whole key, after a word that is the same for every key.
pub proof fn law_header_carries_the_key(api_key: Seq<char>)
    ensures
        bearer(api_key).len() == 7 + api_key.len(),
        bearer(api_key).take(7) == "Bearer "@,
        bearer(api_key).skip(7) == api_key,
{
    reveal_strlit("Bearer ");
    assert(bearer(api_key).take(7) =~= "Bearer "@);
    assert(bearer(api_key).skip(7) =~= api_key);
}

proof fn lemma_line_breaks(bytes: Seq<u8>)
    ensures
        line_breaks(bytes) <= bytes.len(),
    decreases bytes.len(),
{
    if bytes.len() > 0 {
        lemma_line_breaks(bytes.drop_last());
    }
}

/// A text starts on line 1. The next byte stands on the next line after a line break, and on
/// the same line after any other byte. Where parsing failed at a byte, its line is what is told
/// of it, and where nothing is known of the place, nothing is told.
pub proof fn law_failure_is_told_by_its_line(
    contents: Seq<char>,
    start: usize,
    deadline_fits: bool,
)
    ensures
        ({
            let bytes = encode_utf8(contents);
            &&& line_at(contents, 0) == 1
            &&& start < bytes.len() && bytes[start as int] == 10 ==> line_at(
                contents,
                (start + 1) as nat,
            ) == line_at(contents, start as nat) + 1
            &&& start < bytes.len() && bytes[start as int] != 10 ==> line_at(
                contents,
                (start + 1) as nat,
            ) == line_at(contents, start as nat)
            &&& start >= bytes.len() ==> line_at(contents, (start + 1) as nat) == line_at(
                contents,
                start as nat,
            )
        }),
        config_in(contents, Err(Some(start)), deadline_fits) matches Err(
            ConfigError::Malformed(Some(line)),
        ) && line == line_at(contents, start as nat),
        config_in(contents, Err(None), deadline_fits) == Err::<Config, ConfigError>(
            ConfigError::Malformed(None),
        ),
{
    let bytes = encode_utf8(contents);
    let n = if start < bytes.len() {
        start as int
    } else {
        bytes.len() as int
    };
    assert(bytes.take(0).len() == 0);
    lemma_line_breaks(bytes.take(n));
    if start < bytes.len() {
        assert(bytes.take(start + 1).drop_last() =~= bytes.take(start as int));
        assert(bytes.take(start + 1).last() == bytes[start as int]);
    }
}

/// A refusal names the setting at fault, and tells an empty one from one that is wrong.
pub proof fn law_refusal_names_the_setting(error: ConfigError)
    ensures
        ({
            let start = match error {
                ConfigError::Malformed(None) => "invalid config.toml: check TOML syntax"@,
                ConfigError::Malformed(Some(_)) => "invalid config.toml near line "@,
                ConfigError::Endpoint => "model.endpoint must be a complete HTTP(S) URL"@,
                ConfigError::EmptyName => "model.name must not be empty"@,
                ConfigError::EmptyKey => "model.api_key must not be empty"@,
                ConfigError::InvalidKey => "model.api_key must be a valid"@,
                ConfigError::ModelRequests => "limits.max_model_requests must be positive"@,
                ConfigError::OutputTokens => "limits.max_output_tokens must be positive"@,
                ConfigError::RequestTimeout => "limits.request_timeout_secs must be positive"@,
                ConfigError::FileBytes => "limits.max_file_bytes must be positive"@,
                ConfigError::EmptyLevel => "logging.level must not be empty"@,
                ConfigError::UnknownLevel => "logging.level must be one of"@,
            };
            start.is_prefix_of(error.text())
        }),
{
    match error {
        ConfigError::Malformed(None) => {
            reveal_strlit("invalid config.toml");
            reveal_strlit(
                ": check TOML syntax, required fields, unknown fields and value types against config.example.toml",
            );
            reveal_strlit("invalid config.toml: check TOML syntax");
        },
        ConfigError::Malformed(Some(_)) => {
            reveal_strlit("invalid config.toml");
            reveal_strlit(" near line ");
            reveal_strlit("invalid config.toml near line ");
        },
        ConfigError::Endpoint => {
            reveal_strlit("model.endpoint must be a complete HTTP(S) URL");
            reveal_strlit(
                "model.endpoint must be a complete HTTP(S) URL without embedded credentials or a fragment",
            );
        },
        ConfigError::EmptyKey => {
            reveal_strlit("model.api_key must not be empty");
            reveal_strlit("model.api_key must not be empty; set it in config.toml");
        },
        ConfigError::InvalidKey => {
            reveal_strlit("model.api_key must be a valid");
            reveal_strlit("model.api_key must be a valid authentication token without whitespace");
        },
        ConfigError::RequestTimeout => {
            reveal_strlit("limits.request_timeout_secs must be positive");
            reveal_strlit(
                "limits.request_timeout_secs must be positive and representable as both a deadline and milliseconds",
            );
        },
        ConfigError::FileBytes => {
            reveal_strlit("limits.max_file_bytes must be positive");
            reveal_strlit(
                "limits.max_file_bytes must be positive and allow one extra byte within the addressable buffer size",
            );
        },
        ConfigError::UnknownLevel => {
            reveal_strlit("logging.level must be one of");
            reveal_strlit("logging.level must be one of trace, debug, info, warn or error");
        },
        _ => {},
    }
}

/// The line that is told is that of the failure: the words for two lines differ.
pub proof fn law_lines_are_told_apart(line: u128, other: u128)
    requires
        ConfigError::Malformed(Some(line)).text() == ConfigError::Malformed(Some(other)).text(),
    ensures
        line == other,
{
    let before = "invalid config.toml"@ + " near line "@;
    let ours = decimal_digits(line as nat);
    let theirs = decimal_digits(other as nat);
    let text = before + ours + MALFORMED@;
    let words = before + theirs + MALFORMED@;
    let n = before.len() as int;
    assert(text == words);
    assert(ours =~= text.subrange(n, n + ours.len()));
    assert(theirs =~= words.subrange(n, n + theirs.len()));
    law_decimal_digits_tell_numbers_apart(line as nat, other as nat);
}

/// The file that the command line names is used without a look at any other. Without one, the
/// file of the workspace is used where there is one; else that of the user, where there is a
/// home with one; else the built-in settings. Whatever is probed is used where it is a file.
pub proof fn law_first_source_found_is_used(
    explicit: bool,
    workspace_file: bool,
    has_home: bool,
    user_file: bool,
    probed: ConfigSource,
)
    ensures
        search_start(explicit) == SearchStep::Take(ConfigSource::Explicit) <==> explicit,
        search_start(explicit) == SearchStep::Probe(ConfigSource::Workspace) <==> !explicit,
        search_after(probed, true, has_home) == SearchStep::Take(probed),
        search_after(ConfigSource::Workspace, false, true) == SearchStep::Probe(
            ConfigSource::User,
        ),
        search_after(ConfigSource::Workspace, false, false) == SearchStep::Take(
            ConfigSource::BuiltIn,
        ),
        search_after(ConfigSource::User, false, has_home) == SearchStep::Take(
            ConfigSource::BuiltIn,
        ),
        chosen_source(explicit, workspace_file, has_home, user_file) is Explicit <==> explicit,
        chosen_source(explicit, workspace_file, has_home, user_file) is Workspace <==> !explicit
            && workspace_file,
        chosen_source(explicit, workspace_file, has_home, user_file) is User <==> !explicit
            && !workspace_file && has_home && user_file,
        chosen_source(explicit, workspace_file, has_home, user_file) is BuiltIn <==> !explicit
            && !workspace_file && !(has_home && user_file),
{
}

/// What an endpoint says are its parts, each as it is.
pub proof fn law_endpoint_says_its_parts(endpoint: Endpoint)
    ensures
        endpoint@.url == endpoint.url@,
        endpoint@.scheme == endpoint.scheme@,
        endpoint@.username == endpoint.username@,
        endpoint@.path == endpoint.path@,
        endpoint@.host is Some == endpoint.host is Some,
        endpoint@.password is Some == endpoint.password is Some,
        endpoint@.fragment is Some == endpoint.fragment is Some,
        endpoint.host matches Some(host) ==> endpoint@.host == Some(host@),
        endpoint.password matches Some(password) ==> endpoint@.password == Some(password@),
        endpoint.fragment matches Some(fragment) ==> endpoint@.fragment == Some(fragment@),
{
}

} // verus!
