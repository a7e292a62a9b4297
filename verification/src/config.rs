//! The publisher's configuration.
//!
//! Settings come from a file and are then overridden by environment variables,
//! whose names follow the `SECTION_FIELD` convention.

use vstd::prelude::*;
use vstd::string::*;

use crate::env::{
    check_duration_fits, env_bool, env_duration, env_str, env_usize, Environment,
};
#[allow(unused_imports)]
use crate::env::{bool_setting, duration_fits, duration_setting, lookup, str_setting, usize_setting};
use crate::time::Duration;
#[allow(unused_imports)]
use crate::time::NANOS_PER_SEC;

verus! {

/// Where and how superblocks are settled.
#[derive(Clone, Debug)]
pub struct SettlementConfig {
    /// JSON-RPC endpoint of the settlement layer, such as `http://l1-rpc:8545`.
    pub l1_rpc_url: String,
    /// Address of the deployed output oracle contract.
    pub l2oo_address: String,
    /// Private key of the approved proposer account, in hexadecimal.
    pub proposer_key: String,
}

/// The server that sidecars connect to.
#[derive(Clone, Debug)]
pub struct ServerConfig {
    /// The address that it listens on.
    pub listen_addr: String,
    /// The most bytes that a message may have.
    pub max_message_size: usize,
}

/// The HTTP interface.
#[derive(Clone, Debug)]
pub struct ApiConfig {
    /// The address that it listens on.
    pub listen_addr: String,
    /// How long a request may take.
    pub request_timeout: Duration,
}

/// The protocol's time limits.
#[derive(Clone, Debug)]
pub struct ConsensusConfig {
    /// How long a transaction may stay undecided.
    pub timeout: Duration,
    /// How long a period lasts.
    pub period_duration: Duration,
    /// How long the collection of proofs may last.
    pub proof_window: Duration,
}

/// The metrics.
#[derive(Clone, Debug)]
pub struct MetricsConfig {
    /// Whether they are kept.
    pub enabled: bool,
}

/// The log.
#[derive(Clone, Debug)]
pub struct LogConfig {
    /// The least level that is logged.
    pub level: String,
    /// Whether it is written for human readers.
    pub pretty: bool,
}

/// The publisher's configuration.
#[derive(Clone, Debug)]
pub struct Config {
    /// The server that sidecars connect to.
    pub server: ServerConfig,
    /// The HTTP interface.
    pub api: ApiConfig,
    /// The protocol's time limits.
    pub consensus: ConsensusConfig,
    /// The metrics.
    pub metrics: MetricsConfig,
    /// The log.
    pub log: LogConfig,
    /// Where and how superblocks are settled.
    pub settlement: SettlementConfig,
    /// Whether sidecars and verifier work with fabricated proofs. The publisher
    /// only says so in its log.
    pub mock_mode: bool,
}

/// The content of a [`Config`].
#[verifier::ext_equal]
pub struct ConfigView {
    /// The address that the server listens on.
    pub server_listen_addr: Seq<char>,
    /// The most bytes that a message may have.
    pub server_max_message_size: usize,
    /// The address that the HTTP interface listens on.
    pub api_listen_addr: Seq<char>,
    /// How many nanoseconds an HTTP request may take.
    pub api_request_timeout: nat,
    /// How many nanoseconds a transaction may stay undecided.
    pub consensus_timeout: nat,
    /// How many nanoseconds a period lasts.
    pub consensus_period_duration: nat,
    /// How many nanoseconds the collection of proofs may last.
    pub consensus_proof_window: nat,
    /// Whether metrics are kept.
    pub metrics_enabled: bool,
    /// The least level that is logged.
    pub log_level: Seq<char>,
    /// Whether the log is written for human readers.
    pub log_pretty: bool,
    /// Endpoint of the settlement layer.
    pub settlement_l1_rpc_url: Seq<char>,
    /// Address of the output oracle contract.
    pub settlement_l2oo_address: Seq<char>,
    /// Private key of the proposer account.
    pub settlement_proposer_key: Seq<char>,
    /// Whether sidecars and verifier work with fabricated proofs.
    pub mock_mode: bool,
}

impl View for Config {
    type V = ConfigView;

    open spec fn view(&self) -> ConfigView {
        ConfigView {
            server_listen_addr: self.server.listen_addr@,
            server_max_message_size: self.server.max_message_size,
            api_listen_addr: self.api.listen_addr@,
            api_request_timeout: self.api.request_timeout@,
            consensus_timeout: self.consensus.timeout@,
            consensus_period_duration: self.consensus.period_duration@,
            consensus_proof_window: self.consensus.proof_window@,
            metrics_enabled: self.metrics.enabled,
            log_level: self.log.level@,
            log_pretty: self.log.pretty,
            settlement_l1_rpc_url: self.settlement.l1_rpc_url@,
            settlement_l2oo_address: self.settlement.l2oo_address@,
            settlement_proposer_key: self.settlement.proposer_key@,
            mock_mode: self.mock_mode,
        }
    }
}

/// `secs` seconds in nanoseconds.
pub open spec fn seconds(secs: nat) -> nat {
    secs * NANOS_PER_SEC as nat
}

/// An address without a host, which begins with its colon, gets one that stands for
/// every interface.
pub open spec fn normalized_addr(addr: Seq<char>) -> Seq<char> {
    if addr.len() > 0 && addr[0] == ':' {
        "0.0.0.0"@ + addr
    } else {
        addr
    }
}

impl ConfigView {
    /// The settings that hold where nothing else is said.
    pub open spec fn defaults() -> ConfigView {
        ConfigView {
            server_listen_addr: ":8080"@,
            server_max_message_size: 4_194_304,
            api_listen_addr: ":8081"@,
            api_request_timeout: seconds(15),
            consensus_timeout: seconds(60),
            consensus_period_duration: seconds(3840),
            consensus_proof_window: seconds(7200),
            metrics_enabled: true,
            log_level: "info"@,
            log_pretty: false,
            settlement_l1_rpc_url: Seq::empty(),
            settlement_l2oo_address: Seq::empty(),
            settlement_proposer_key: Seq::empty(),
            mock_mode: false,
        }
    }

    /// The settings with every listening address in its full form.
    pub open spec fn normalized(self) -> ConfigView {
        ConfigView {
            server_listen_addr: normalized_addr(self.server_listen_addr),
            api_listen_addr: normalized_addr(self.api_listen_addr),
            ..self
        }
    }

    /// The settings after the environment was looked at.
    pub open spec fn overridden(self, vars: Seq<(Seq<char>, Seq<char>)>) -> ConfigView {
        ConfigView {
            server_listen_addr: str_setting(vars, "SERVER_LISTEN_ADDR"@, self.server_listen_addr),
            server_max_message_size: usize_setting(
                vars,
                "SERVER_MAX_MESSAGE_SIZE"@,
                self.server_max_message_size,
            ),
            api_listen_addr: str_setting(vars, "API_LISTEN_ADDR"@, self.api_listen_addr),
            api_request_timeout: duration_setting(
                vars,
                "API_REQUEST_TIMEOUT"@,
                self.api_request_timeout,
            ),
            consensus_timeout: duration_setting(vars, "CONSENSUS_TIMEOUT"@, self.consensus_timeout),
            consensus_period_duration: duration_setting(
                vars,
                "CONSENSUS_PERIOD_DURATION"@,
                self.consensus_period_duration,
            ),
            consensus_proof_window: duration_setting(
                vars,
                "CONSENSUS_PROOF_WINDOW"@,
                self.consensus_proof_window,
            ),
            metrics_enabled: bool_setting(vars, "METRICS_ENABLED"@, self.metrics_enabled),
            log_level: str_setting(vars, "LOG_LEVEL"@, self.log_level),
            log_pretty: bool_setting(vars, "LOG_PRETTY"@, self.log_pretty),
            settlement_l1_rpc_url: str_setting(
                vars,
                "SETTLEMENT_L1_RPC_URL"@,
                self.settlement_l1_rpc_url,
            ),
            settlement_l2oo_address: str_setting(
                vars,
                "SETTLEMENT_L2OO_ADDRESS"@,
                self.settlement_l2oo_address,
            ),
            settlement_proposer_key: str_setting(
                vars,
                "SETTLEMENT_PROPOSER_KEY"@,
                self.settlement_proposer_key,
            ),
            mock_mode: bool_setting(vars, "MOCK_MODE"@, self.mock_mode),
        }
    }

    /// The first fault of the settings.
    pub open spec fn fault(self) -> Option<ConfigError> {
        if self.server_listen_addr.len() == 0 {
            Some(ConfigError::EmptyListenAddr)
        } else if self.consensus_timeout == 0 {
            Some(ConfigError::ZeroTimeout)
        } else if self.consensus_period_duration == 0 {
            Some(ConfigError::ZeroPeriodDuration)
        } else if self.consensus_proof_window == 0 {
            Some(ConfigError::ZeroProofWindow)
        } else {
            None
        }
    }

    /// Whether everything that settlement needs is set.
    pub open spec fn settlement_configured(self) -> bool {
        &&& self.settlement_l1_rpc_url.len() > 0
        &&& self.settlement_l2oo_address.len() > 0
        &&& self.settlement_proposer_key.len() > 0
    }
}

/// None of the spans of time in the environment has a second to carry over to
/// 2^64 - 1 seconds.
pub open spec fn durations_fit(vars: Seq<(Seq<char>, Seq<char>)>) -> bool {
    &&& duration_fits(vars, "API_REQUEST_TIMEOUT"@)
    &&& duration_fits(vars, "CONSENSUS_TIMEOUT"@)
    &&& duration_fits(vars, "CONSENSUS_PERIOD_DURATION"@)
    &&& duration_fits(vars, "CONSENSUS_PROOF_WINDOW"@)
}

/// None of the spans of time in the environment has a second to carry over to
/// 2^64 - 1 seconds.
pub fn check_durations_fit(env: &Environment) -> (r: bool)
    ensures
        r == durations_fit(env@),
{
    check_duration_fits(env, "API_REQUEST_TIMEOUT") && check_duration_fits(env, "CONSENSUS_TIMEOUT")
        && check_duration_fits(env, "CONSENSUS_PERIOD_DURATION") && check_duration_fits(
        env,
        "CONSENSUS_PROOF_WINDOW",
    )
}

/// A setting that the publisher cannot run with.
#[derive(Clone, Copy, Debug, PartialEq, Eq, Structural)]
pub enum ConfigError {
    /// The server has no address to listen on.
    EmptyListenAddr,
    /// Transactions have no time to be decided.
    ZeroTimeout,
    /// Periods do not last.
    ZeroPeriodDuration,
    /// Proofs have no time to be collected.
    ZeroProofWindow,
}

/// What [`ConfigError::message`] says.
pub open spec fn config_error_text(e: ConfigError) -> Seq<char> {
    match e {
        ConfigError::EmptyListenAddr => "server.listen_addr must not be empty"@,
        ConfigError::ZeroTimeout => "consensus.timeout must be positive"@,
        ConfigError::ZeroPeriodDuration => "consensus.period_duration must be positive"@,
        ConfigError::ZeroProofWindow => "consensus.proof_window must be positive"@,
    }
}

impl ConfigError {
    /// The error in words.
    pub fn message(&self) -> (text: String)
        ensures
            text@ == config_error_text(*self),
    {
        match self {
            ConfigError::EmptyListenAddr => "server.listen_addr must not be empty".to_string(),
            ConfigError::ZeroTimeout => "consensus.timeout must be positive".to_string(),
            ConfigError::ZeroPeriodDuration => {
                "consensus.period_duration must be positive".to_string()
            },
            ConfigError::ZeroProofWindow => "consensus.proof_window must be positive".to_string(),
        }
    }
}

impl Default for SettlementConfig {
    /// No settlement.
    fn default() -> (c: SettlementConfig)
        ensures
            c.l1_rpc_url@.len() == 0,
            c.l2oo_address@.len() == 0,
            c.proposer_key@.len() == 0,
    {
        SettlementConfig {
            l1_rpc_url: String::new(),
            l2oo_address: String::new(),
            proposer_key: String::new(),
        }
    }
}

impl SettlementConfig {
    /// Whether everything that settlement needs is set.
    pub fn is_configured(&self) -> (r: bool)
        ensures
            r == (self.l1_rpc_url@.len() > 0 && self.l2oo_address@.len() > 0
                && self.proposer_key@.len() > 0),
    {
        !self.l1_rpc_url.as_str().is_empty() && !self.l2oo_address.as_str().is_empty()
            && !self.proposer_key.as_str().is_empty()
    }
}

impl Default for ServerConfig {
    /// Port 8080, and messages of up to 4 MiB.
    fn default() -> (c: ServerConfig)
        ensures
            c.listen_addr@ == ":8080"@,
            c.max_message_size == 4_194_304,
    {
        ServerConfig { listen_addr: ":8080".to_string(), max_message_size: 4 * 1024 * 1024 }
    }
}

impl Default for ApiConfig {
    /// Port 8081, and fifteen seconds for a request.
    fn default() -> (c: ApiConfig)
        ensures
            c.listen_addr@ == ":8081"@,
            c.request_timeout@ == seconds(15),
    {
        ApiConfig { listen_addr: ":8081".to_string(), request_timeout: Duration::from_secs(15) }
    }
}

impl Default for ConsensusConfig {
    /// A minute to decide, 64 minutes to a period, two hours to collect proofs.
    fn default() -> (c: ConsensusConfig)
        ensures
            c.timeout@ == seconds(60),
            c.period_duration@ == seconds(3840),
            c.proof_window@ == seconds(7200),
    {
        ConsensusConfig {
            timeout: Duration::from_secs(60),
            period_duration: Duration::from_secs(3840),
            proof_window: Duration::from_secs(7200),
        }
    }
}

impl Default for MetricsConfig {
    /// Metrics are kept.
    fn default() -> (c: MetricsConfig)
        ensures
            c.enabled,
    {
        MetricsConfig { enabled: true }
    }
}

impl Default for LogConfig {
    /// Level `info`, written for machines.
    fn default() -> (c: LogConfig)
        ensures
            c.level@ == "info"@,
            !c.pretty,
    {
        LogConfig { level: "info".to_string(), pretty: false }
    }
}

impl Default for Config {
    /// The settings that hold where nothing else is said.
    fn default() -> (c: Config)
        ensures
            c@ == ConfigView::defaults(),
    {
        let c = Config {
            server: ServerConfig::default(),
            api: ApiConfig::default(),
            consensus: ConsensusConfig::default(),
            metrics: MetricsConfig::default(),
            log: LogConfig::default(),
            settlement: SettlementConfig::default(),
            mock_mode: false,
        };
        assert(c@ =~= ConfigView::defaults());
        c
    }
}

/// Brings a listening address into its full form.
pub fn normalize_addr(addr: &mut String)
    ensures
        final(addr)@ == normalized_addr(old(addr)@),
{
    if addr.as_str().unicode_len() > 0 && addr.as_str().get_char(0) == ':' {
        let mut full = "0.0.0.0".to_string();
        full.append(addr.as_str());
        *addr = full;
    }
}

impl Config {
    /// The configuration that the publisher runs with: what the file says, or the
    /// defaults where there is no file, overridden by the environment, with
    /// addresses in their full form. A configuration that the publisher cannot run
    /// with is refused.
    pub fn resolve(file: Option<Config>, env: &Environment) -> (r: Result<Config, ConfigError>)
        requires
            durations_fit(env@),
        ensures
            ({
                let base = match file {
                    Some(c) => c@,
                    None => ConfigView::defaults(),
                };
                let resolved = base.overridden(env@).normalized();
                match resolved.fault() {
                    Some(e) => r == Err::<Config, ConfigError>(e),
                    None => r is Ok && r->Ok_0@ == resolved,
                }
            }),
    {
        let mut cfg = match file {
            Some(c) => c,
            None => Config::default(),
        };
        cfg.apply_env_overrides(env);
        cfg.normalize();
        match cfg.validate() {
            Ok(()) => Ok(cfg),
            Err(e) => Err(e),
        }
    }

    /// Brings every listening address into its full form.
    pub fn normalize(&mut self)
        ensures
            final(self)@ == old(self)@.normalized(),
    {
        normalize_addr(&mut self.server.listen_addr);
        normalize_addr(&mut self.api.listen_addr);
    }

    /// Overrides settings by environment variables.
    pub fn apply_env_overrides(&mut self, env: &Environment)
        requires
            durations_fit(env@),
        ensures
            final(self)@ == old(self)@.overridden(env@),
    {
        env_str(env, "SERVER_LISTEN_ADDR", &mut self.server.listen_addr);
        env_usize(env, "SERVER_MAX_MESSAGE_SIZE", &mut self.server.max_message_size);

        env_str(env, "API_LISTEN_ADDR", &mut self.api.listen_addr);
        env_duration(env, "API_REQUEST_TIMEOUT", &mut self.api.request_timeout);

        env_duration(env, "CONSENSUS_TIMEOUT", &mut self.consensus.timeout);
        env_duration(env, "CONSENSUS_PERIOD_DURATION", &mut self.consensus.period_duration);
        env_duration(env, "CONSENSUS_PROOF_WINDOW", &mut self.consensus.proof_window);

        env_bool(env, "METRICS_ENABLED", &mut self.metrics.enabled);

        env_str(env, "LOG_LEVEL", &mut self.log.level);
        env_bool(env, "LOG_PRETTY", &mut self.log.pretty);

        env_str(env, "SETTLEMENT_L1_RPC_URL", &mut self.settlement.l1_rpc_url);
        env_str(env, "SETTLEMENT_L2OO_ADDRESS", &mut self.settlement.l2oo_address);
        env_str(env, "SETTLEMENT_PROPOSER_KEY", &mut self.settlement.proposer_key);

        env_bool(env, "MOCK_MODE", &mut self.mock_mode);
    }

    /// Refuses settings that the publisher cannot run with.
    pub fn validate(&self) -> (r: Result<(), ConfigError>)
        ensures
            r == (match self@.fault() {
                Some(e) => Err(e),
                None => Ok(()),
            }),
    {
        if self.server.listen_addr.as_str().is_empty() {
            return Err(ConfigError::EmptyListenAddr);
        }
        if self.consensus.timeout.is_zero() {
            return Err(ConfigError::ZeroTimeout);
        }
        if self.consensus.period_duration.is_zero() {
            return Err(ConfigError::ZeroPeriodDuration);
        }
        if self.consensus.proof_window.is_zero() {
            return Err(ConfigError::ZeroProofWindow);
        }
        Ok(())
    }
}

/// The default settings have no fault, in full form either.
pub proof fn defaults_are_valid()
    ensures
        ConfigView::defaults().fault() is None,
        ConfigView::defaults().normalized().fault() is None,
{
    reveal_strlit(":8080");
}

/// Bringing addresses into their full form twice does no more than doing it once.
pub proof fn normalizing_is_idempotent(c: ConfigView)
    ensures
        c.normalized().normalized() == c.normalized(),
{
    reveal_strlit("0.0.0.0");
}

/// No address in its full form begins with its colon.
pub proof fn normalized_addresses_have_a_host(c: ConfigView)
    ensures
        c.normalized().server_listen_addr.len() > 0 ==> c.normalized().server_listen_addr[0] != ':',
        c.normalized().api_listen_addr.len() > 0 ==> c.normalized().api_listen_addr[0] != ':',
{
    reveal_strlit("0.0.0.0");
}

/// Bringing addresses into their full form neither mends nor causes a fault.
pub proof fn normalizing_keeps_faults(c: ConfigView)
    ensures
        c.normalized().fault() == c.fault(),
{
}

/// An environment that sets nothing overrides nothing.
pub proof fn empty_environment_overrides_nothing(c: ConfigView)
    ensures
        c.overridden(Seq::empty()) == c,
{
}

/// Overriding twice by the same environment does no more than doing it once.
pub proof fn overriding_is_idempotent(c: ConfigView, vars: Seq<(Seq<char>, Seq<char>)>)
    ensures
        c.overridden(vars).overridden(vars) == c.overridden(vars),
{
}

/// Text settings that the environment makes win over the file.
pub proof fn environment_wins(
    c: ConfigView,
    d: ConfigView,
    vars: Seq<(Seq<char>, Seq<char>)>,
)
    ensures
        lookup(vars, "SERVER_LISTEN_ADDR"@) is Some ==> c.overridden(vars).server_listen_addr
            == d.overridden(vars).server_listen_addr,
        lookup(vars, "API_LISTEN_ADDR"@) is Some ==> c.overridden(vars).api_listen_addr
            == d.overridden(vars).api_listen_addr,
        lookup(vars, "LOG_LEVEL"@) is Some ==> c.overridden(vars).log_level == d.overridden(
            vars,
        ).log_level,
        lookup(vars, "SETTLEMENT_L1_RPC_URL"@) is Some ==> c.overridden(vars).settlement_l1_rpc_url
            == d.overridden(vars).settlement_l1_rpc_url,
        lookup(vars, "SETTLEMENT_L2OO_ADDRESS"@) is Some ==> c.overridden(
            vars,
        ).settlement_l2oo_address == d.overridden(vars).settlement_l2oo_address,
        lookup(vars, "SETTLEMENT_PROPOSER_KEY"@) is Some ==> c.overridden(
            vars,
        ).settlement_proposer_key == d.overridden(vars).settlement_proposer_key,
{
}

} // verus!
