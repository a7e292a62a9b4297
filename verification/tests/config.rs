use publisher::cli::Cli;
use publisher::config::{check_durations_fit, normalize_addr, Config, ConfigError};
use publisher::durations::parse_duration;
use publisher::env::{
    bool_word, check_duration_fits, env_bool, env_duration, env_str, env_usize, override_with,
    Environment,
};
use publisher::spans::check_spans_fit;
use publisher::time::Duration;

fn environment(vars: &[(&str, &str)]) -> Environment {
    Environment::new(
        vars.iter()
            .map(|(k, v)| (k.to_string(), v.to_string()))
            .collect(),
    )
}

fn arguments(args: &[&str]) -> Vec<String> {
    args.iter().map(|a| a.to_string()).collect()
}

#[test]
fn defaults() {
    let cfg = Config::default();
    assert_eq!(cfg.server.listen_addr, ":8080");
    assert_eq!(cfg.server.max_message_size, 4 * 1024 * 1024);
    assert_eq!(cfg.api.listen_addr, ":8081");
    assert_eq!(cfg.api.request_timeout, Duration::from_secs(15));
    assert_eq!(cfg.consensus.timeout, Duration::from_secs(60));
    assert_eq!(cfg.consensus.period_duration, Duration::from_secs(3840));
    assert_eq!(cfg.consensus.proof_window, Duration::from_secs(7200));
    assert!(cfg.metrics.enabled);
    assert_eq!(cfg.log.level, "info");
    assert!(!cfg.log.pretty);
}

#[test]
fn env_override_string() {
    let mut val = "old".to_string();
    let env = environment(&[("TEST_CFG_STR", "new")]);
    env_str(&env, "TEST_CFG_STR", &mut val);
    assert_eq!(val, "new");
}

#[test]
fn env_override_duration() {
    let mut d = Duration::from_secs(10);
    let env = environment(&[("TEST_CFG_DUR", "5s")]);
    assert!(check_duration_fits(&env, "TEST_CFG_DUR"));
    env_duration(&env, "TEST_CFG_DUR", &mut d);
    assert_eq!(d, Duration::from_secs(5));
}

#[test]
fn env_override_bool() {
    let mut b = false;
    let env = environment(&[("TEST_CFG_BOOL", "true")]);
    env_bool(&env, "TEST_CFG_BOOL", &mut b);
    assert!(b);
}

#[test]
fn cli_default_config_path() {
    let cli = Cli::try_parse_from(arguments(&["publisher"])).unwrap();
    assert_eq!(cli.config, "config.yaml");
}

#[test]
fn cli_custom_config_path() {
    let cli = Cli::try_parse_from(arguments(&[
        "publisher",
        "--config",
        "/etc/publisher/config.yaml",
    ]))
    .unwrap();
    assert_eq!(cli.config, "/etc/publisher/config.yaml");
}

#[test]
fn cli_takes_the_short_and_the_joined_form() {
    let cli = Cli::try_parse_from(arguments(&["publisher", "-c", "a.yaml"])).unwrap();
    assert_eq!(cli.config, "a.yaml");
    let cli = Cli::try_parse_from(arguments(&["publisher", "--config=b.yaml"])).unwrap();
    assert_eq!(cli.config, "b.yaml");
}

#[test]
fn cli_refuses_a_wrong_command_line_and_gives_help() {
    let err = Cli::try_parse_from(arguments(&["publisher", "--nonsense"])).unwrap_err();
    assert_eq!(err.exit_code, 2);
    assert!(err.message.contains("--nonsense"));
    let err = Cli::try_parse_from(arguments(&["publisher", "--config", ""])).unwrap_err();
    assert_eq!(err.exit_code, 2);
    let err = Cli::try_parse_from(arguments(&["publisher", "--help"])).unwrap_err();
    assert_eq!(err.exit_code, 0);
    assert!(err.message.contains("Ethera Shared Publisher"));
    assert!(err.message.contains("--config <CONFIG>"));
    assert!(err.message.contains("[default: config.yaml]"));
}

#[test]
fn bool_words_are_read_in_any_case() {
    for (word, value) in [
        ("TRUE", true),
        ("True", true),
        ("1", true),
        ("YES", true),
        ("no", false),
        ("FALSE", false),
        ("0", false),
    ] {
        let env = environment(&[("FLAG", word)]);
        let mut b = !value;
        env_bool(&env, "FLAG", &mut b);
        assert_eq!(b, value, "{}", word);
    }
    for word in ["", "on", "2", "tru", "yes "] {
        let env = environment(&[("FLAG", word)]);
        for before in [true, false] {
            let mut b = before;
            env_bool(&env, "FLAG", &mut b);
            assert_eq!(b, before, "{}", word);
        }
    }
    assert_eq!(bool_word("yes"), Some(true));
    assert_eq!(bool_word("YES"), None);
}

#[test]
fn sizes_are_read_as_decimal_numbers() {
    for (text, value) in [("12", 12usize), ("+7", 7), ("007", 7), ("", 1), ("-3", 1), ("4k", 1), ("+", 1)] {
        let env = environment(&[("SIZE", text)]);
        let mut n: usize = 1;
        env_usize(&env, "SIZE", &mut n);
        assert_eq!(n, value, "{}", text);
    }
    let env = environment(&[("SIZE", "99999999999999999999999")]);
    let mut n: usize = 5;
    env_usize(&env, "SIZE", &mut n);
    assert_eq!(n, 5);
}

#[test]
fn durations_are_read_with_their_units() {
    for (text, nanos) in [
        ("5s", 5_000_000_000u128),
        ("3840s", 3_840_000_000_000),
        ("250ms", 250_000_000),
        ("1m 30s", 90_000_000_000),
        ("2h", 7_200_000_000_000),
        ("0s", 0),
        ("1.5s", 1_500_000_000),
    ] {
        assert!(check_spans_fit(text));
        assert_eq!(parse_duration(text).unwrap().as_nanos(), nanos, "{}", text);
    }
    for text in ["", "5", "s", "five seconds", "5x", "-1s"] {
        assert!(check_spans_fit(text));
        assert!(parse_duration(text).is_none(), "{}", text);
        let env = environment(&[("SPAN", text)]);
        let mut d = Duration::from_secs(9);
        env_duration(&env, "SPAN", &mut d);
        assert_eq!(d, Duration::from_secs(9));
    }
}

#[test]
fn spans_beyond_the_range_of_durations_are_passed_over() {
    for text in [
        "99999999999999999999s",
        "18446744073709551616s",
        "18446744073709551615s 1s",
        "18446744073709551614s 2000000000ns",
        "600000000000y",
        "20000000000000ms 20000000000000000ms",
        "307445734561825861m",
        "1.33333333333333333333s",
        "0.3h 0.0001h",
    ] {
        assert!(check_spans_fit(text), "{}", text);
        assert!(parse_duration(text).is_none(), "{}", text);
        let env = environment(&[("CONSENSUS_TIMEOUT", text)]);
        assert!(check_durations_fit(&env));
        let cfg = Config::resolve(None, &env).unwrap();
        assert_eq!(cfg.consensus.timeout, Duration::from_secs(60));
    }
}

#[test]
fn the_largest_spans_are_taken() {
    for (text, nanos) in [
        ("18446744073709551615s", u64::MAX as u128 * 1_000_000_000),
        ("18446744073709551615s 999999999ns", u64::MAX as u128 * 1_000_000_000 + 999_999_999),
        ("18446744073709551614s 1000000000ns", u64::MAX as u128 * 1_000_000_000),
        ("18446744073709551615.25s", u64::MAX as u128 * 1_000_000_000 + 250_000_000),
        ("1844674407370 9551615s", u64::MAX as u128 * 1_000_000_000),
        ("0.5m 0.25h 1 \u{b5}s", 930_000_001_000),
    ] {
        assert!(check_spans_fit(text), "{}", text);
        assert_eq!(parse_duration(text).unwrap().as_nanos(), nanos, "{}", text);
    }
    let env = environment(&[("CONSENSUS_TIMEOUT", "18446744073709551615s")]);
    assert!(check_durations_fit(&env));
    let cfg = Config::resolve(None, &env).unwrap();
    assert_eq!(cfg.consensus.timeout, Duration::from_secs(u64::MAX));
}

#[test]
fn a_carry_at_the_largest_count_is_told_apart() {
    for text in [
        "18446744073709551615s 1000000000ns",
        "18446744073709551615s1000ms",
        "18446744073709551615.4s 0.01m",
        "18446744073709551555s 1min\u{3000}1000000usec",
        "18446744073709551615s 1000ms and more",
    ] {
        assert!(!check_spans_fit(text), "{}", text);
        let env = environment(&[("CONSENSUS_TIMEOUT", text)]);
        assert!(!check_duration_fits(&env, "CONSENSUS_TIMEOUT"));
        assert!(!check_durations_fit(&env));
    }
    // Where the text is refused before it comes to that, there is no carry.
    for text in [
        "x 18446744073709551615s 1000ms",
        "1q 18446744073709551615s 1000ms",
        "18446744073709551615s, 1000ms",
        "18446744073709551615s 0.5ns 1000ms",
        "18446744073709551615s 1.ms",
        "99999999999999999999s 18446744073709551615s 1000ms",
    ] {
        assert!(check_spans_fit(text), "{}", text);
        assert!(parse_duration(text).is_none(), "{}", text);
    }
    assert!(check_durations_fit(&environment(&[])));
}

#[test]
fn a_missing_value_leaves_a_setting_alone() {
    let mut n: u64 = 3;
    override_with(None, &mut n);
    assert_eq!(n, 3);
    override_with(Some(4), &mut n);
    assert_eq!(n, 4);
}

#[test]
fn the_first_of_two_variables_counts() {
    let env = environment(&[("A", "one"), ("B", "two"), ("A", "three")]);
    assert_eq!(env.get("A"), Some("one"));
    assert_eq!(env.get("B"), Some("two"));
    assert_eq!(env.get("C"), None);
}

#[test]
fn addresses_without_a_host_get_one() {
    for (text, full) in [
        (":8080", "0.0.0.0:8080"),
        ("127.0.0.1:8080", "127.0.0.1:8080"),
        ("", ""),
        (":", "0.0.0.0:"),
    ] {
        let mut addr = text.to_string();
        normalize_addr(&mut addr);
        assert_eq!(addr, full);
        normalize_addr(&mut addr);
        assert_eq!(addr, full);
    }
}

#[test]
fn resolving_without_a_file_gives_the_defaults_in_full() {
    let cfg = Config::resolve(None, &environment(&[])).unwrap();
    assert_eq!(cfg.server.listen_addr, "0.0.0.0:8080");
    assert_eq!(cfg.api.listen_addr, "0.0.0.0:8081");
    assert_eq!(cfg.consensus.timeout, Duration::from_secs(60));
    assert!(!cfg.settlement.is_configured());
    assert!(!cfg.mock_mode);
}

#[test]
fn every_setting_can_be_overridden() {
    let env = environment(&[
        ("SERVER_LISTEN_ADDR", ":1"),
        ("SERVER_MAX_MESSAGE_SIZE", "2"),
        ("API_LISTEN_ADDR", "host:3"),
        ("API_REQUEST_TIMEOUT", "4s"),
        ("CONSENSUS_TIMEOUT", "5s"),
        ("CONSENSUS_PERIOD_DURATION", "6s"),
        ("CONSENSUS_PROOF_WINDOW", "7s"),
        ("METRICS_ENABLED", "no"),
        ("LOG_LEVEL", "debug"),
        ("LOG_PRETTY", "yes"),
        ("SETTLEMENT_L1_RPC_URL", "url"),
        ("SETTLEMENT_L2OO_ADDRESS", "address"),
        ("SETTLEMENT_PROPOSER_KEY", "key"),
        ("MOCK_MODE", "1"),
    ]);
    assert!(check_durations_fit(&env));
    let cfg = Config::resolve(Some(Config::default()), &env).unwrap();
    assert_eq!(cfg.server.listen_addr, "0.0.0.0:1");
    assert_eq!(cfg.server.max_message_size, 2);
    assert_eq!(cfg.api.listen_addr, "host:3");
    assert_eq!(cfg.api.request_timeout, Duration::from_secs(4));
    assert_eq!(cfg.consensus.timeout, Duration::from_secs(5));
    assert_eq!(cfg.consensus.period_duration, Duration::from_secs(6));
    assert_eq!(cfg.consensus.proof_window, Duration::from_secs(7));
    assert!(!cfg.metrics.enabled);
    assert_eq!(cfg.log.level, "debug");
    assert!(cfg.log.pretty);
    assert_eq!(cfg.settlement.l1_rpc_url, "url");
    assert_eq!(cfg.settlement.l2oo_address, "address");
    assert_eq!(cfg.settlement.proposer_key, "key");
    assert!(cfg.settlement.is_configured());
    assert!(cfg.mock_mode);
    // Doing it again changes nothing.
    let mut again = cfg.clone();
    again.apply_env_overrides(&env);
    again.normalize();
    assert_eq!(again.server.listen_addr, cfg.server.listen_addr);
    assert_eq!(again.consensus.timeout, cfg.consensus.timeout);
}

#[test]
fn each_fault_is_reported() {
    for (key, value, error, text) in [
        (
            "SERVER_LISTEN_ADDR",
            "",
            ConfigError::EmptyListenAddr,
            "server.listen_addr must not be empty",
        ),
        (
            "CONSENSUS_TIMEOUT",
            "0s",
            ConfigError::ZeroTimeout,
            "consensus.timeout must be positive",
        ),
        (
            "CONSENSUS_PERIOD_DURATION",
            "0s",
            ConfigError::ZeroPeriodDuration,
            "consensus.period_duration must be positive",
        ),
        (
            "CONSENSUS_PROOF_WINDOW",
            "0s",
            ConfigError::ZeroProofWindow,
            "consensus.proof_window must be positive",
        ),
    ] {
        let err = Config::resolve(None, &environment(&[(key, value)])).unwrap_err();
        assert_eq!(err, error);
        assert_eq!(err.message(), text);
    }
    assert!(Config::default().validate().is_ok());
}
