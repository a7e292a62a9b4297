//! Laws of the configuration: which variable sets what, and what is refused.

use vstd::prelude::*;
#[allow(unused_imports)]
use vstd::string::*;

#[allow(unused_imports)]
use crate::config::{
    config_error_text, durations_fit, normalized_addr, seconds, Config, ConfigError, ConfigView,
};
#[allow(unused_imports)]
use crate::durations::parsed_nanos;
#[allow(unused_imports)]
use crate::env::{
    ascii_lower, duration_fits, is_first_var, lookup, lowercased, word_value,
};
#[allow(unused_imports)]
use crate::spans::spans_fit;
#[allow(unused_imports)]
use crate::text::{decimal_value, is_digit, is_number, number};

verus! {

/// A set of environment variables.
pub type Vars = Seq<(Seq<char>, Seq<char>)>;

/// No variable has the name `key`.
pub open spec fn unset(vars: Vars, key: Seq<char>) -> bool {
    forall|i: int| 0 <= i < vars.len() ==> (#[trigger] vars[i]).0 != key
}

/// The first variable with the name `key` has the value `value`.
pub open spec fn set_to(vars: Vars, key: Seq<char>, value: Seq<char>) -> bool {
    exists|i: int| {
        &&& 0 <= i < vars.len()
        &&& (#[trigger] vars[i]).0 == key
        &&& vars[i].1 == value
        &&& forall|j: int| 0 <= j < i ==> (#[trigger] vars[j]).0 != key
    }
}

/// The value of a variable is the one that it was first set to, and there is none where
/// it was not set.
pub proof fn first_value_counts(vars: Vars, key: Seq<char>, value: Seq<char>)
    ensures
        lookup(vars, key) == Some(value) <==> set_to(vars, key, value),
        lookup(vars, key) is None <==> unset(vars, key),
{
    if exists|i: int| is_first_var(vars, key, i) {
        let i = choose|i: int| is_first_var(vars, key, i);
        assert(is_first_var(vars, key, i));
        assert(vars[i].0 == key);
        assert(set_to(vars, key, vars[i].1));
    }
    if set_to(vars, key, value) {
        let i = choose|i: int| {
            &&& 0 <= i < vars.len()
            &&& (#[trigger] vars[i]).0 == key
            &&& vars[i].1 == value
            &&& forall|j: int| 0 <= j < i ==> (#[trigger] vars[j]).0 != key
        };
        assert(is_first_var(vars, key, i));
        let k = choose|k: int| is_first_var(vars, key, k);
        assert(is_first_var(vars, key, k));
        assert(i == k) by {
            if i < k {
                assert(vars[i].0 != key);
            } else if k < i {
                assert(vars[k].0 != key);
            }
        }
    }
    if !unset(vars, key) {
        let i = choose|i: int| 0 <= i < vars.len() && (#[trigger] vars[i]).0 == key;
        first_var_exists(vars, key, i);
    }
}

/// From a variable of the name, going back finds the first one.
proof fn first_var_exists(vars: Vars, key: Seq<char>, i: int)
    requires
        0 <= i < vars.len(),
        vars[i].0 == key,
    ensures
        exists|k: int| is_first_var(vars, key, k),
    decreases i,
{
    if exists|j: int| 0 <= j < i && (#[trigger] vars[j]).0 == key {
        let j = choose|j: int| 0 <= j < i && (#[trigger] vars[j]).0 == key;
        first_var_exists(vars, key, j);
    } else {
        assert(is_first_var(vars, key, i));
    }
}

/// A setting is what its variable says, and stays as it is where the variable is not
/// set: this is so of each text setting under the variable that has its name.
pub proof fn text_variables_set_their_settings(c: ConfigView, vars: Vars, value: Seq<char>)
    ensures
        set_to(vars, "SERVER_LISTEN_ADDR"@, value) ==> c.overridden(vars).server_listen_addr
            == value,
        unset(vars, "SERVER_LISTEN_ADDR"@) ==> c.overridden(vars).server_listen_addr
            == c.server_listen_addr,
        set_to(vars, "API_LISTEN_ADDR"@, value) ==> c.overridden(vars).api_listen_addr == value,
        unset(vars, "API_LISTEN_ADDR"@) ==> c.overridden(vars).api_listen_addr == c.api_listen_addr,
        set_to(vars, "LOG_LEVEL"@, value) ==> c.overridden(vars).log_level == value,
        unset(vars, "LOG_LEVEL"@) ==> c.overridden(vars).log_level == c.log_level,
        set_to(vars, "SETTLEMENT_L1_RPC_URL"@, value)
            ==> c.overridden(vars).settlement_l1_rpc_url == value,
        unset(vars, "SETTLEMENT_L1_RPC_URL"@) ==> c.overridden(vars).settlement_l1_rpc_url
            == c.settlement_l1_rpc_url,
        set_to(vars, "SETTLEMENT_L2OO_ADDRESS"@, value)
            ==> c.overridden(vars).settlement_l2oo_address == value,
        unset(vars, "SETTLEMENT_L2OO_ADDRESS"@) ==> c.overridden(vars).settlement_l2oo_address
            == c.settlement_l2oo_address,
        set_to(vars, "SETTLEMENT_PROPOSER_KEY"@, value)
            ==> c.overridden(vars).settlement_proposer_key == value,
        unset(vars, "SETTLEMENT_PROPOSER_KEY"@) ==> c.overridden(vars).settlement_proposer_key
            == c.settlement_proposer_key,
{
    first_value_counts(vars, "SERVER_LISTEN_ADDR"@, value);
    first_value_counts(vars, "API_LISTEN_ADDR"@, value);
    first_value_counts(vars, "LOG_LEVEL"@, value);
    first_value_counts(vars, "SETTLEMENT_L1_RPC_URL"@, value);
    first_value_counts(vars, "SETTLEMENT_L2OO_ADDRESS"@, value);
    first_value_counts(vars, "SETTLEMENT_PROPOSER_KEY"@, value);
}

/// Each span of time is the one that its variable writes, and stays as it is where the
/// variable is not set or writes none.
pub proof fn span_variables_set_their_settings(c: ConfigView, vars: Vars, value: Seq<char>)
    ensures
        set_to(vars, "API_REQUEST_TIMEOUT"@, value) ==> c.overridden(vars).api_request_timeout
            == (match parsed_nanos(value) {
            Some(n) => n,
            None => c.api_request_timeout,
        }),
        unset(vars, "API_REQUEST_TIMEOUT"@) ==> c.overridden(vars).api_request_timeout
            == c.api_request_timeout,
        set_to(vars, "CONSENSUS_TIMEOUT"@, value) ==> c.overridden(vars).consensus_timeout
            == (match parsed_nanos(value) {
            Some(n) => n,
            None => c.consensus_timeout,
        }),
        unset(vars, "CONSENSUS_TIMEOUT"@) ==> c.overridden(vars).consensus_timeout
            == c.consensus_timeout,
        set_to(vars, "CONSENSUS_PERIOD_DURATION"@, value)
            ==> c.overridden(vars).consensus_period_duration == (match parsed_nanos(value) {
            Some(n) => n,
            None => c.consensus_period_duration,
        }),
        unset(vars, "CONSENSUS_PERIOD_DURATION"@)
            ==> c.overridden(vars).consensus_period_duration == c.consensus_period_duration,
        set_to(vars, "CONSENSUS_PROOF_WINDOW"@, value)
            ==> c.overridden(vars).consensus_proof_window == (match parsed_nanos(value) {
            Some(n) => n,
            None => c.consensus_proof_window,
        }),
        unset(vars, "CONSENSUS_PROOF_WINDOW"@) ==> c.overridden(vars).consensus_proof_window
            == c.consensus_proof_window,
{
    first_value_counts(vars, "API_REQUEST_TIMEOUT"@, value);
    first_value_counts(vars, "CONSENSUS_TIMEOUT"@, value);
    first_value_counts(vars, "CONSENSUS_PERIOD_DURATION"@, value);
    first_value_counts(vars, "CONSENSUS_PROOF_WINDOW"@, value);
}

/// Each switch is on where its variable, in lower case, is `true`, `1` or `yes`, off
/// where it is `false`, `0` or `no`, and stays as it is otherwise.
pub proof fn switch_variables_set_their_settings(c: ConfigView, vars: Vars, value: Seq<char>)
    ensures
        ({
            let word = lowercased(value);
            let on = word == "true"@ || word == "1"@ || word == "yes"@;
            let off = word == "false"@ || word == "0"@ || word == "no"@;
            &&& set_to(vars, "METRICS_ENABLED"@, value) && on ==> c.overridden(vars).metrics_enabled
            &&& set_to(vars, "METRICS_ENABLED"@, value) && off
                ==> !c.overridden(vars).metrics_enabled
            &&& set_to(vars, "METRICS_ENABLED"@, value) && !on && !off
                ==> c.overridden(vars).metrics_enabled == c.metrics_enabled
            &&& unset(vars, "METRICS_ENABLED"@) ==> c.overridden(vars).metrics_enabled
                == c.metrics_enabled
            &&& set_to(vars, "LOG_PRETTY"@, value) && on ==> c.overridden(vars).log_pretty
            &&& set_to(vars, "LOG_PRETTY"@, value) && off ==> !c.overridden(vars).log_pretty
            &&& set_to(vars, "LOG_PRETTY"@, value) && !on && !off
                ==> c.overridden(vars).log_pretty == c.log_pretty
            &&& unset(vars, "LOG_PRETTY"@) ==> c.overridden(vars).log_pretty == c.log_pretty
            &&& set_to(vars, "MOCK_MODE"@, value) && on ==> c.overridden(vars).mock_mode
            &&& set_to(vars, "MOCK_MODE"@, value) && off ==> !c.overridden(vars).mock_mode
            &&& set_to(vars, "MOCK_MODE"@, value) && !on && !off ==> c.overridden(vars).mock_mode
                == c.mock_mode
            &&& unset(vars, "MOCK_MODE"@) ==> c.overridden(vars).mock_mode == c.mock_mode
        }),
{
    first_value_counts(vars, "METRICS_ENABLED"@, value);
    first_value_counts(vars, "LOG_PRETTY"@, value);
    first_value_counts(vars, "MOCK_MODE"@, value);
    words_are_told_apart();
}

/// No word stands for both truth values.
proof fn words_are_told_apart()
    ensures
        word_value("true"@) == Some(true),
        word_value("1"@) == Some(true),
        word_value("yes"@) == Some(true),
        word_value("false"@) == Some(false),
        word_value("0"@) == Some(false),
        word_value("no"@) == Some(false),
{
    reveal_strlit("true");
    reveal_strlit("1");
    reveal_strlit("yes");
    reveal_strlit("false");
    reveal_strlit("0");
    reveal_strlit("no");
    assert("true"@.len() == 4 && "yes"@.len() == 3 && "1"@.len() == 1);
    assert("false"@.len() == 5 && "no"@.len() == 2 && "0"@.len() == 1);
    assert("1"@[0] != "0"@[0]);
}

/// A word is a truth value exactly if it is one of six.
pub proof fn six_words_are_truth_values(word: Seq<char>)
    ensures
        word_value(word) == Some(true) <==> word == "true"@ || word == "1"@ || word == "yes"@,
        word_value(word) == Some(false) <==> word == "false"@ || word == "0"@ || word == "no"@,
{
    words_are_told_apart();
}

/// An ASCII letter in upper case and its lower-case form lie 32 apart; all else is its
/// own lower-case form.
pub proof fn lower_case_of_ascii(c: char)
    ensures
        'A' <= c && c <= 'Z' ==> ascii_lower(c) as int == c as int + 32,
        !('A' <= c && c <= 'Z') ==> ascii_lower(c) == c,
{
}

/// The size is the number that its variable writes in digits, after a plus sign or not,
/// where it fits; it stays as it is otherwise.
pub proof fn size_variable_sets_its_setting(c: ConfigView, vars: Vars, digits: Seq<char>)
    requires
        forall|i: int| 0 <= i < digits.len() ==> is_digit(#[trigger] digits[i]),
        digits.len() > 0,
    ensures
        ({
            let key = "SERVER_MAX_MESSAGE_SIZE"@;
            let size = c.overridden(vars).server_max_message_size;
            &&& unset(vars, key) ==> size == c.server_max_message_size
            &&& set_to(vars, key, digits) || set_to(vars, key, seq!['+'] + digits)
                ==> if decimal_value(
                digits,
            ) <= usize::MAX {
                size == decimal_value(digits)
            } else {
                size == c.server_max_message_size
            }
        }),
{
    let key = "SERVER_MAX_MESSAGE_SIZE"@;
    let signed = seq!['+'] + digits;
    first_value_counts(vars, key, digits);
    first_value_counts(vars, key, signed);
    assert(signed.drop_first() =~= digits);
    assert(is_digit(digits[0]));
}

/// A value that is no number leaves the size as it is.
pub proof fn other_sizes_are_passed_over(c: ConfigView, vars: Vars, value: Seq<char>, i: int)
    requires
        set_to(vars, "SERVER_MAX_MESSAGE_SIZE"@, value),
        value.len() == 0 || (0 <= i < value.len() && !is_digit(value[i]) && (i > 0 || value[0]
            != '+')) || value == seq!['+'],
    ensures
        c.overridden(vars).server_max_message_size == c.server_max_message_size,
{
    first_value_counts(vars, "SERVER_MAX_MESSAGE_SIZE"@, value);
    let digits = if value.len() > 0 && value[0] == '+' {
        value.drop_first()
    } else {
        value
    };
    if value.len() > 0 && value != seq!['+'] {
        if value[0] == '+' {
            assert(digits[i - 1] == value[i]);
        } else {
            assert(digits[i] == value[i]);
        }
    }
    assert(!is_number(digits));
}

/// A listening address that begins with its colon gets a host that stands for every
/// interface; every other address, and every other setting, stays as it is.
pub proof fn only_hostless_addresses_change(c: ConfigView)
    ensures
        ({
            let d = c.normalized();
            &&& d.server_listen_addr == (if c.server_listen_addr.len() > 0
                && c.server_listen_addr[0] == ':' {
                "0.0.0.0"@ + c.server_listen_addr
            } else {
                c.server_listen_addr
            })
            &&& d.api_listen_addr == (if c.api_listen_addr.len() > 0 && c.api_listen_addr[0]
                == ':' {
                "0.0.0.0"@ + c.api_listen_addr
            } else {
                c.api_listen_addr
            })
            &&& d == (ConfigView {
                server_listen_addr: d.server_listen_addr,
                api_listen_addr: d.api_listen_addr,
                ..c
            })
        }),
{
}

/// Settings are refused exactly if the server has no address or one of the three spans
/// of the protocol is zero; what is amiss first is what is reported.
pub proof fn faults_are_reported_in_order(c: ConfigView)
    ensures
        c.fault() is None <==> {
            &&& c.server_listen_addr.len() > 0
            &&& c.consensus_timeout > 0
            &&& c.consensus_period_duration > 0
            &&& c.consensus_proof_window > 0
        },
        c.fault() == Some(ConfigError::EmptyListenAddr) <==> c.server_listen_addr.len() == 0,
        c.fault() == Some(ConfigError::ZeroTimeout) <==> c.server_listen_addr.len() > 0
            && c.consensus_timeout == 0,
        c.fault() == Some(ConfigError::ZeroPeriodDuration) <==> c.server_listen_addr.len() > 0
            && c.consensus_timeout > 0 && c.consensus_period_duration == 0,
        c.fault() == Some(ConfigError::ZeroProofWindow) <==> c.server_listen_addr.len() > 0
            && c.consensus_timeout > 0 && c.consensus_period_duration > 0
            && c.consensus_proof_window == 0,
{
}

/// The message for a setting names it.
pub proof fn config_errors_name_their_setting()
    ensures
        config_error_text(ConfigError::EmptyListenAddr) == "server.listen_addr must not be empty"@,
        config_error_text(ConfigError::ZeroTimeout) == "consensus.timeout must be positive"@,
        config_error_text(ConfigError::ZeroPeriodDuration)
            == "consensus.period_duration must be positive"@,
        config_error_text(ConfigError::ZeroProofWindow)
            == "consensus.proof_window must be positive"@,
{
}

/// Where nothing else is said, the server listens on port 8080 and takes messages of up
/// to 4 MiB, the HTTP interface listens on port 8081 and takes fifteen seconds, a
/// transaction has a minute, a period 64 minutes and a collection two hours, metrics are
/// kept, the log is for machines at level `info`, and there is no settlement.
pub proof fn default_settings()
    ensures
        ({
            let c = ConfigView::defaults();
            &&& c.server_listen_addr == ":8080"@
            &&& c.server_max_message_size == 4 * 1024 * 1024
            &&& c.api_listen_addr == ":8081"@
            &&& c.api_request_timeout == 15 * 1_000_000_000
            &&& c.consensus_timeout == 60 * 1_000_000_000
            &&& c.consensus_period_duration == 64 * 60 * 1_000_000_000
            &&& c.consensus_proof_window == 2 * 60 * 60 * 1_000_000_000
            &&& c.metrics_enabled
            &&& c.log_level == "info"@
            &&& !c.log_pretty
            &&& c.settlement_l1_rpc_url.len() == 0
            &&& c.settlement_l2oo_address.len() == 0
            &&& c.settlement_proposer_key.len() == 0
            &&& !c.mock_mode
        }),
{
}

/// Settlement is configured exactly if endpoint, contract and key are all set.
pub proof fn settlement_takes_three_settings(c: ConfigView)
    ensures
        c.settlement_configured() <==> c.settlement_l1_rpc_url.len() > 0
            && c.settlement_l2oo_address.len() > 0 && c.settlement_proposer_key.len() > 0,
{
}

/// The environment fits exactly if each of the four spans of time in it does.
pub proof fn four_spans_have_to_fit(vars: Vars)
    ensures
        durations_fit(vars) <==> forall|value: Seq<char>|
            #![trigger spans_fit(value)]
            (set_to(vars, "API_REQUEST_TIMEOUT"@, value) || set_to(
                vars,
                "CONSENSUS_TIMEOUT"@,
                value,
            ) || set_to(vars, "CONSENSUS_PERIOD_DURATION"@, value) || set_to(
                vars,
                "CONSENSUS_PROOF_WINDOW"@,
                value,
            )) ==> spans_fit(value),
{
    span_has_to_fit(vars, "API_REQUEST_TIMEOUT"@);
    span_has_to_fit(vars, "CONSENSUS_TIMEOUT"@);
    span_has_to_fit(vars, "CONSENSUS_PERIOD_DURATION"@);
    span_has_to_fit(vars, "CONSENSUS_PROOF_WINDOW"@);
}

/// A variable fits exactly if every value that it can be said to have does.
proof fn span_has_to_fit(vars: Vars, key: Seq<char>)
    ensures
        duration_fits(vars, key) <==> forall|value: Seq<char>|
            #![trigger spans_fit(value)]
            set_to(vars, key, value) ==> spans_fit(value),
{
    assert forall|value: Seq<char>|
        #![trigger spans_fit(value)]
        lookup(vars, key) == Some(value) <==> set_to(vars, key, value) by {
        first_value_counts(vars, key, value);
    }
    if let Some(value) = lookup(vars, key) {
        first_value_counts(vars, key, value);
        assert(set_to(vars, key, value));
        assert(spans_fit(value) == duration_fits(vars, key));
    }
}

/// The content of a configuration is what its parts hold.
pub proof fn config_view_is_faithful(c: Config)
    ensures
        c@.server_listen_addr == c.server.listen_addr@,
        c@.server_max_message_size == c.server.max_message_size,
        c@.api_listen_addr == c.api.listen_addr@,
        c@.api_request_timeout == c.api.request_timeout@,
        c@.consensus_timeout == c.consensus.timeout@,
        c@.consensus_period_duration == c.consensus.period_duration@,
        c@.consensus_proof_window == c.consensus.proof_window@,
        c@.metrics_enabled == c.metrics.enabled,
        c@.log_level == c.log.level@,
        c@.log_pretty == c.log.pretty,
        c@.settlement_l1_rpc_url == c.settlement.l1_rpc_url@,
        c@.settlement_l2oo_address == c.settlement.l2oo_address@,
        c@.settlement_proposer_key == c.settlement.proposer_key@,
        c@.mock_mode == c.mock_mode,
{
}

} // verus!
