//! Laws of the operations on settings, messages, proofs, metrics and text: what holds of
//! every call, in terms of its arguments and its result.

use std::collections::HashMap;

use vstd::prelude::*;
#[allow(unused_imports)]
use vstd::string::*;

#[allow(unused_imports)]
use crate::cli::{arg_views, Cli, CliError};
#[allow(unused_imports)]
use crate::config::{normalize_addr, Config, ConfigError, ConfigView, SettlementConfig};
#[allow(unused_imports)]
use crate::config_laws::{
    default_settings, faults_are_reported_in_order, first_value_counts, set_to,
    six_words_are_truth_values, unset,
};
#[allow(unused_imports)]
use crate::durations::{parse_duration, parsed_nanos};
#[allow(unused_imports)]
use crate::effects::MetricUpdate;
#[allow(unused_imports)]
use crate::env::{
    all_ascii, ascii_lower, bool_word, env_bool, env_duration, env_str, env_usize, lookup,
    override_with, var_views, Environment,
};
#[allow(unused_imports)]
use crate::handler_laws::leading_digits_name_the_chain;
#[allow(unused_imports)]
use crate::mailbox::{
    agreement_is_equality_of_roots, first_fault, inbox_fault, mailboxes_agree, matches_sender,
    proof_views, reported_fault_is_the_first, validate_mailbox_consistency, MailboxError, ProofData,
};
#[allow(unused_imports)]
use crate::message_codec::{decoded, encoded, DecodeError};
#[allow(unused_imports)]
use crate::messages::{Message, MessageView};
#[allow(unused_imports)]
use crate::metrics::{Metric, MetricChange, MetricKind};
#[allow(unused_imports)]
use crate::sbcp::{
    lists_values, Conclusion, ProofReceipt, PublisherError, PublisherState, PublisherView, Refusal,
};
#[allow(unused_imports)]
use crate::spans::writes_seconds;
#[allow(unused_imports)]
use crate::text::{
    decimal, decimal_denotes, decimal_value, hex_lower, is_digit, is_number, parse_number,
    parse_number_prefix, u64_to_decimal,
};
#[allow(unused_imports)]
use crate::time::{Duration, Instant};
#[allow(unused_imports)]
use crate::types::{
    chains_from_request, participants, participants_are_the_named_chains, ChainId, Instance,
    InstanceId, PeriodId, SuperblockHash, SuperblockNumber, XtRequest,
};

verus! {

/// The configuration is what the file says, or the defaults where there is none, with
/// what
/// the environment says in its place and addresses in full; it is refused exactly if the
/// server has no address or one of the protocol's spans is zero.
pub proof fn resolving(file: Option<Config>, env: &Environment, r: Result<Config, ConfigError>)
    requires
        call_ensures(Config::resolve, (file, env), r),
    ensures
        ({
            let base = match file {
                Some(c) => c@,
                None => ConfigView::defaults(),
            };
            let all = base.overridden(env@).normalized();
            match r {
                Ok(c) => {
                    &&& c@ == all
                    &&& all.server_listen_addr.len() > 0
                    &&& all.consensus_timeout > 0
                    &&& all.consensus_period_duration > 0
                    &&& all.consensus_proof_window > 0
                },
                Err(ConfigError::EmptyListenAddr) => all.server_listen_addr.len() == 0,
                Err(ConfigError::ZeroTimeout) => all.server_listen_addr.len() > 0
                    && all.consensus_timeout == 0,
                Err(ConfigError::ZeroPeriodDuration) => all.server_listen_addr.len() > 0
                    && all.consensus_timeout > 0 && all.consensus_period_duration == 0,
                Err(ConfigError::ZeroProofWindow) => all.server_listen_addr.len() > 0
                    && all.consensus_timeout > 0 && all.consensus_period_duration > 0
                    && all.consensus_proof_window == 0,
            }
        }),
{
    let base = match file {
        Some(c) => c@,
        None => ConfigView::defaults(),
    };
    faults_are_reported_in_order(base.overridden(env@).normalized());
}

/// A configuration is valid exactly if the server has an address and none of the
/// protocol's spans is zero; what is amiss first is what is reported.
pub proof fn validating(c: &Config, r: Result<(), ConfigError>)
    requires
        call_ensures(Config::validate, (c,), r),
    ensures
        match r {
            Ok(()) => c.server.listen_addr@.len() > 0 && c.consensus.timeout@ > 0
                && c.consensus.period_duration@ > 0 && c.consensus.proof_window@ > 0,
            Err(ConfigError::EmptyListenAddr) => c.server.listen_addr@.len() == 0,
            Err(ConfigError::ZeroTimeout) => c.server.listen_addr@.len() > 0 && c.consensus.timeout@
                == 0,
            Err(ConfigError::ZeroPeriodDuration) => c.server.listen_addr@.len() > 0
                && c.consensus.timeout@ > 0 && c.consensus.period_duration@ == 0,
            Err(ConfigError::ZeroProofWindow) => c.server.listen_addr@.len() > 0
                && c.consensus.timeout@ > 0 && c.consensus.period_duration@ > 0
                && c.consensus.proof_window@ == 0,
        },
{
    faults_are_reported_in_order(c@);
}

/// An address that begins with its colon gets a host; every other one stays as it is.
pub proof fn normalizing_an_address(addr: &mut String)
    requires
        call_ensures(normalize_addr, (addr,), ()),
    ensures
        old(addr)@.len() > 0 && old(addr)@[0] == ':' ==> final(addr)@ == "0.0.0.0"@ + old(addr)@,
        old(addr)@.len() == 0 || old(addr)@[0] != ':' ==> final(addr)@ == old(addr)@,
{
}

/// The listening addresses are brought into their full form, and all else stays.
pub proof fn normalizing(c: &mut Config)
    requires
        call_ensures(Config::normalize, (c,), ()),
    ensures
        final(c)@ == old(c)@.normalized(),
{
}

/// The environment's settings take the place of the others.
pub proof fn overriding(c: &mut Config, env: &Environment)
    requires
        call_ensures(Config::apply_env_overrides, (c, env), ()),
    ensures
        final(c)@ == old(c)@.overridden(env@),
{
}

/// Settlement is configured exactly if endpoint, contract and key are all set.
pub proof fn checking_for_settlement(c: &SettlementConfig, r: bool)
    requires
        call_ensures(SettlementConfig::is_configured, (c,), r),
    ensures
        r <==> c.l1_rpc_url@.len() > 0 && c.l2oo_address@.len() > 0 && c.proposer_key@.len() > 0,
{
}

/// A variable has the value that it was first set to.
pub proof fn looking_a_variable_up(env: &Environment, key: &str, r: Option<&str>)
    requires
        call_ensures(Environment::get, (env, key), r),
    ensures
        match r {
            Some(value) => set_to(env@, key@, value@),
            None => unset(env@, key@),
        },
{
    match r {
        Some(value) => first_value_counts(env@, key@, value@),
        None => first_value_counts(env@, key@, Seq::empty()),
    }
}

/// An environment has the variables that it was given, in order.
pub proof fn making_an_environment(vars: Vec<(String, String)>, env: Environment, i: int)
    requires
        call_ensures(Environment::new, (vars,), env),
        0 <= i < vars.len(),
    ensures
        env@.len() == vars.len(),
        env@[i] == (vars[i].0@, vars[i].1@),
{
}

/// A text setting becomes the value of its variable, where that is set.
pub proof fn overriding_a_text(env: &Environment, key: &str, target: &mut String, value: Seq<char>)
    requires
        call_ensures(env_str, (env, key, target), ()),
    ensures
        set_to(env@, key@, value) ==> final(target)@ == value,
        unset(env@, key@) ==> final(target)@ == old(target)@,
{
    first_value_counts(env@, key@, value);
}

/// A switch becomes what its variable says in one of six words, in any case of ASCII
/// letters; it stays as it is where the variable is not set or says something else.
pub proof fn overriding_a_switch(env: &Environment, key: &str, target: &mut bool, value: Seq<char>)
    requires
        call_ensures(env_bool, (env, key, target), ()),
    ensures
        ({
            let word = value.map_values(|c: char| ascii_lower(c));
            let on = word == "true"@ || word == "1"@ || word == "yes"@;
            let off = word == "false"@ || word == "0"@ || word == "no"@;
            &&& set_to(env@, key@, value) && all_ascii(value) && on ==> *final(target)
            &&& set_to(env@, key@, value) && all_ascii(value) && off ==> !*final(target)
            &&& set_to(env@, key@, value) && all_ascii(value) && !on && !off ==> *final(target)
                == *old(target)
            &&& unset(env@, key@) ==> *final(target) == *old(target)
        }),
{
    first_value_counts(env@, key@, value);
    six_words_are_truth_values(value.map_values(|c: char| ascii_lower(c)));
}

/// A size becomes the number that its variable writes in digits, after a plus sign or
/// not,
/// where it fits.
pub proof fn overriding_a_size(
    env: &Environment,
    key: &str,
    target: &mut usize,
    digits: Seq<char>,
)
    requires
        call_ensures(env_usize, (env, key, target), ()),
        is_number(digits),
    ensures
        set_to(env@, key@, digits) || set_to(env@, key@, seq!['+'] + digits) ==> if decimal_value(
            digits,
        ) <= usize::MAX {
            *final(target) == decimal_value(digits)
        } else {
            *final(target) == *old(target)
        },
        unset(env@, key@) ==> *final(target) == *old(target),
{
    let signed = seq!['+'] + digits;
    first_value_counts(env@, key@, digits);
    first_value_counts(env@, key@, signed);
    assert(signed.drop_first() =~= digits);
    assert(is_digit(digits[0]));
}

/// A span becomes the one that its variable writes, where it writes one.
pub proof fn overriding_a_span(
    env: &Environment,
    key: &str,
    target: &mut Duration,
    value: Seq<char>,
)
    requires
        call_ensures(env_duration, (env, key, target), ()),
    ensures
        set_to(env@, key@, value) && parsed_nanos(value) is Some ==> Some(final(target)@)
            == parsed_nanos(value),
        set_to(env@, key@, value) && parsed_nanos(value) is None ==> final(target)@
            == old(target)@,
        unset(env@, key@) ==> final(target)@ == old(target)@,
{
    first_value_counts(env@, key@, value);
}

/// A plain number of seconds is read as that many seconds, up to 64 bits of them.
pub proof fn reading_seconds(text: &str, r: Option<Duration>, digits: Seq<char>)
    requires
        call_ensures(parse_duration, (text,), r),
        is_number(digits),
        text@ == digits.push('s'),
    ensures
        match r {
            Some(d) => decimal_value(digits) <= u64::MAX && d@ == decimal_value(digits)
                * 1_000_000_000,
            None => decimal_value(digits) > u64::MAX,
        },
{
    assert(text@.drop_last() =~= digits);
    assert(writes_seconds(text@));
}

/// Six words stand for truth values, and no others.
pub proof fn reading_a_word(word: &str, r: Option<bool>)
    requires
        call_ensures(bool_word, (word,), r),
    ensures
        r == Some(true) <==> word@ == "true"@ || word@ == "1"@ || word@ == "yes"@,
        r == Some(false) <==> word@ == "false"@ || word@ == "0"@ || word@ == "no"@,
{
    six_words_are_truth_values(word@);
}

/// Without arguments the configuration is `config.yaml`; `--config` names another.
pub proof fn parsing_the_command_line(args: Vec<String>, r: Result<Cli, CliError>)
    requires
        call_ensures(Cli::try_parse_from, (args,), r),
    ensures
        args.len() <= 1 ==> r is Ok && r->Ok_0.config@ == "config.yaml"@,
        args.len() == 3 && args[1]@ == "--config"@ && args[2]@.len() > 0 && args[2]@[0] != '-'
            ==> r is Ok && r->Ok_0.config@ == args[2]@,
        r matches Err(e) ==> e.exit_code == 0 || e.exit_code == 2,
{
}

/// A message is written as its encoding, and read as what its bytes decode to.
pub proof fn coding(
    m: &Message,
    bytes: Vec<u8>,
    input: &[u8],
    r: Result<Message, DecodeError>,
)
    requires
        call_ensures(Message::encode_to_vec, (m,), bytes),
        call_ensures(Message::decode, (input,), r),
    ensures
        bytes@ == encoded(m@),
        match r {
            Ok(read) => decoded(input@) == Some(read@),
            Err(_) => decoded(input@) is None,
        },
{
}

/// What one side writes, the other reads as it was.
pub proof fn passing_a_message_on(
    m: &Message,
    bytes: Vec<u8>,
    input: &[u8],
    r: Result<Message, DecodeError>,
)
    requires
        call_ensures(Message::encode_to_vec, (m,), bytes),
        input@ == bytes@,
        bytes@.len() <= u64::MAX,
        call_ensures(Message::decode, (input,), r),
    ensures
        r is Ok,
        r->Ok_0@ == m@,
{
    crate::message_codec::messages_survive_the_wire(m@);
}

/// A set of proofs passes exactly if each inbox of each chain has a root, and it is the
/// root of the outbox that the sender's proof lists for the chain; else the first inbox
/// of some chain for which that is not so is reported.
pub proof fn checking_mailboxes(proofs: &HashMap<u64, ProofData>, r: Result<(), MailboxError>)
    requires
        call_ensures(validate_mailbox_consistency, (proofs,), r),
    ensures
        ({
            let views = proof_views(proofs@);
            &&& r is Ok <==> forall|to: u64, idx: int|
                #![trigger views[to].mailbox_info.inbox_chains[idx]]
                views.contains_key(to) && 0 <= idx < views[to].mailbox_info.inbox_chains.len()
                    ==> matches_sender(views, views[to].mailbox_info.inbox_chains[idx], to, idx)
            &&& r matches Err(e) ==> exists|to: u64, idx: int| {
                &&& views.contains_key(to)
                &&& 0 <= idx < views[to].mailbox_info.inbox_chains.len()
                &&& !matches_sender(
                    views,
                    #[trigger] views[to].mailbox_info.inbox_chains[idx],
                    to,
                    idx,
                )
                &&& forall|before: int|
                    0 <= before < idx ==> matches_sender(
                        views,
                        #[trigger] views[to].mailbox_info.inbox_chains[before],
                        to,
                        before,
                    )
                &&& e == (if idx >= views[to].mailbox_info.inbox_roots.len() {
                    MailboxError::RootMissing { chain: to }
                } else {
                    MailboxError::Mismatch {
                        chain: to,
                        inbox_chain: views[to].mailbox_info.inbox_chains[idx],
                    }
                })
            }
        }),
{
    let views = proof_views(proofs@);
    agreement_is_equality_of_roots(views);
    if let Err(e) = r {
        let (to, idx) = choose|to: u64, idx: int| #[trigger] first_fault(views, to, idx, e);
        reported_fault_is_the_first(views, to, idx, e);
        assert(!matches_sender(views, views[to].mailbox_info.inbox_chains[idx], to, idx));
    }
}

/// A proof that comes with nothing else holds the compressed proof, and nothing else.
pub proof fn making_a_bare_proof(compressed: Vec<u8>, d: ProofData, i: int)
    requires
        call_ensures(ProofData::bare, (compressed,), d),
        0 <= i < 32,
    ensures
        d.compressed_proof@ == compressed@,
        d.aggregation_outputs@.len() == 0,
        d.agg_vkey_hash@[i] == 0,
        d.mailbox_info.inbox_chains@.len() == 0,
        d.mailbox_info.inbox_roots@.len() == 0,
        d.mailbox_info.outbox_chains@.len() == 0,
        d.mailbox_info.outbox_roots@.len() == 0,
{
    assert(d@ == crate::mailbox::bare_proof(compressed@));
    assert(d@.agg_vkey_hash[i] == 0);
}

/// A metric's name, description, kind and buckets are those of the metric.
pub proof fn describing_a_metric(
    m: &Metric,
    name: &'static str,
    help: &'static str,
    kind: MetricKind,
    bounds: Vec<u64>,
)
    requires
        call_ensures(Metric::name, (m,), name),
        call_ensures(Metric::help, (m,), help),
        call_ensures(Metric::kind, (m,), kind),
        call_ensures(Metric::bounds_ms, (m,), bounds),
    ensures
        name@ == crate::metrics::metric_name(*m),
        help@ == crate::metrics::metric_help(*m),
        kind == crate::metrics::metric_kind(*m),
        bounds@ == crate::metrics::metric_bounds(*m),
{
}

/// All metrics are registered, each once, and an update changes what it is about.
pub proof fn updating_a_metric(
    list: Vec<Metric>,
    m: Metric,
    u: &MetricUpdate,
    r: (Metric, MetricChange),
)
    requires
        call_ensures(Metric::all, (), list),
        call_ensures(MetricUpdate::change, (u,), r),
    ensures
        list@.contains(m),
        list@.no_duplicates(),
        r == crate::metrics::update_change(*u),
{
    crate::metrics::every_metric_is_registered(m);
}

/// A number's decimal text consists of digits, has no leading zero but for zero itself,
/// and
/// stands for the number.
pub proof fn writing_a_number(n: u64, s: String)
    requires
        call_ensures(u64_to_decimal, (n,), s),
    ensures
        is_number(s@),
        decimal_value(s@) == n,
        n > 0 ==> s@[0] != '0',
{
    decimal_denotes(n as nat);
    if n > 0 {
        no_leading_zero(n as nat);
    }
}

/// A number above zero does not begin with a zero.
proof fn no_leading_zero(n: nat)
    requires
        n > 0,
    ensures
        decimal(n).len() > 0,
        decimal(n)[0] != '0',
    decreases n,
{
    if n >= 10 {
        no_leading_zero(n / 10);
    } else {
        assert(decimal(n)[0] as int == 48 + n);
    }
}

/// A text is read as a number exactly if it consists of digits, after a plus sign or not,
/// and the number is not too large.
pub proof fn reading_a_number(s: &str, max: u64, r: Option<u64>, digits: Seq<char>)
    requires
        call_ensures(parse_number, (s, max), r),
        s@ == digits && (s@.len() == 0 || s@[0] != '+') || s@ == seq!['+'] + digits,
    ensures
        match r {
            Some(n) => is_number(digits) && decimal_value(digits) == n && n <= max,
            None => !is_number(digits) || decimal_value(digits) > max,
        },
{
    if s@ == seq!['+'] + digits {
        assert(s@.drop_first() =~= digits);
    }
}

/// The number that a text begins with is that of its leading digits, where it has any and
/// they make up 64 bits at most.
pub proof fn reading_leading_digits(
    s: &str,
    r: Option<u64>,
    digits: Seq<char>,
    rest: Seq<char>,
)
    requires
        call_ensures(parse_number_prefix, (s,), r),
        s@ == digits + rest,
        forall|i: int| 0 <= i < digits.len() ==> is_digit(#[trigger] digits[i]),
        rest.len() > 0 ==> !is_digit(rest[0]),
    ensures
        match r {
            Some(n) => digits.len() > 0 && decimal_value(digits) == n,
            None => digits.len() == 0 || decimal_value(digits) > u64::MAX,
        },
{
    leading_digits_name_the_chain(digits, rest);
}

/// An identifier's text has two lower-case hexadecimal digits for each byte.
pub proof fn writing_an_identifier(id: &InstanceId, s: String)
    requires
        call_ensures(InstanceId::to_string, (id,), s),
    ensures
        s@.len() == 64,
        s@ == hex_lower(id.0@),
{
}

/// The chains of a request, and those of an instance, are the ones that the request
/// names,
/// each once.
pub proof fn listing_participants(
    request: &XtRequest,
    chains: Vec<ChainId>,
    instance: &Instance,
    members: Vec<ChainId>,
    chain: ChainId,
)
    requires
        call_ensures(chains_from_request, (request,), chains),
        call_ensures(Instance::chains, (instance,), members),
    ensures
        chains@ == participants(request@),
        chains@.no_duplicates(),
        chains@.contains(chain) <==> exists|i: int|
            0 <= i < request@.len() && (#[trigger] request@[i]).0 == chain,
        members@ == participants(instance.xt_request@),
        members@.no_duplicates(),
        members@.contains(chain) <==> exists|i: int|
            0 <= i < instance.xt_request@.len() && (#[trigger] instance.xt_request@[i]).0 == chain,
{
    participants_are_the_named_chains(request@, chain);
    participants_are_the_named_chains(instance.xt_request@, chain);
}

/// The time since an earlier reading leads from it to the later one, and a span is at
/// least as long as another exactly if it is not shorter.
pub proof fn measuring_time(
    later: &Instant,
    earlier: &Instant,
    d: Duration,
    limit: &Duration,
    enough: bool,
)
    requires
        call_ensures(Instant::duration_since, (later, earlier), d),
        call_ensures(Duration::at_least, (&d, limit), enough),
    ensures
        earlier@ <= later@ ==> earlier@ + d@ == later@,
        later@ <= earlier@ ==> d@ == 0,
        enough <==> !(d@ < limit@),
{
}

/// A proof that is not taken is refused for what is amiss first; one that is taken says
/// whether that of some chain is missing, and else gives the proofs of all of them, with
/// the hash of the superblock before.
pub proof fn collecting_a_chain_proof(
    p: &mut PublisherState,
    period_id: PeriodId,
    sb: SuperblockNumber,
    data: Vec<u8>,
    chain: ChainId,
    r: ProofReceipt,
)
    requires
        call_ensures(PublisherState::receive_proof, (p, period_id, sb, data, chain), r),
    ensures
        ({
            let v = old(p)@;
            let w = final(p)@;
            match r {
                ProofReceipt::Ignored(why) => {
                    &&& w == v
                    &&& match why {
                        Refusal::OldSuperblock => sb.0 <= v.last_finalized,
                        Refusal::NotTerminated => sb.0 > v.last_finalized && sb.0 >= v.target,
                        Refusal::NotNext => sb.0 > v.last_finalized + 1 && sb.0 < v.target,
                        Refusal::WrongPeriod => sb.0 == v.last_finalized + 1 && sb.0 < v.target
                            && period_id.0 + (v.target - sb.0) != v.period_id,
                        Refusal::Duplicate => sb.0 == v.last_finalized + 1 && sb.0 < v.target
                            && v.proofs.contains_key(sb.0) && v.proofs[sb.0].contains_key(chain.0),
                    }
                },
                ProofReceipt::Waiting { received, total } => {
                    &&& w.proofs.contains_key(sb.0)
                    &&& received == w.proofs[sb.0].len()
                    &&& total == v.chains.len()
                    &&& exists|c: u64| #[trigger]
                        v.chains.contains(c) && !w.proofs[sb.0].contains_key(c)
                },
                ProofReceipt::Complete { last_superblock_hash, proofs } => {
                    &&& last_superblock_hash == v.last_finalized_hash
                    &&& w.proofs.contains_key(sb.0)
                    &&& lists_values(proofs@, w.proofs[sb.0])
                    &&& forall|c: u64| #[trigger]
                        v.chains.contains(c) ==> w.proofs[sb.0].contains_key(c)
                },
            }
        }),
{
    let v = old(p)@;
    let w = final(p)@;
    crate::sbcp_laws::proofs_are_taken_in_turn(v, period_id.0, sb.0, chain.0);
    if v.refusal(period_id.0, sb.0, chain.0) is None {
        assert(w.collected(sb.0) == w.proofs[sb.0]);
        if !v.chains.subset_of(w.collected(sb.0).dom()) {
            let c = choose|c: u64| v.chains.contains(c) && !w.collected(sb.0).dom().contains(c);
            assert(v.chains.contains(c) && !w.proofs[sb.0].contains_key(c));
        } else {
            assert forall|c: u64| #[trigger] v.chains.contains(c) implies w.proofs[sb.0].contains_key(
                c,
            ) by {
                assert(w.collected(sb.0).dom().contains(c));
            }
        }
    }
}

/// A proof that was generated is to be published under its superblock; a failure is to be
/// announced as a return to the newest settled one.
pub proof fn concluding(
    p: &mut PublisherState,
    sb: SuperblockNumber,
    outcome: Result<Vec<u8>, String>,
    r: Conclusion,
)
    requires
        call_ensures(PublisherState::conclude, (p, sb, outcome), r),
    ensures
        match outcome {
            Ok(bytes) => r matches Conclusion::Publish { superblock_number, network_proof }
                && superblock_number == sb && network_proof == bytes
                && !final(p)@.proofs.contains_key(sb.0),
            Err(_) => r matches Conclusion::AnnounceRollback {
                period_id,
                superblock_number,
                superblock_hash,
            } && period_id.0 == old(p)@.period_id && superblock_number.0 == old(p)@.last_finalized
                && superblock_hash == old(p)@.last_finalized_hash,
        },
{
}

/// An error is told in the words for it.
pub proof fn telling_errors(
    mailbox: &MailboxError,
    of_mailbox: String,
    publisher: &PublisherError,
    of_publisher: String,
    config: &ConfigError,
    of_config: String,
    parse: &crate::handlers::ParseChainIdError,
    of_parse: String,
)
    requires
        call_ensures(MailboxError::message, (mailbox,), of_mailbox),
        call_ensures(PublisherError::message, (publisher,), of_publisher),
        call_ensures(ConfigError::message, (config,), of_config),
        call_ensures(crate::handlers::ParseChainIdError::message, (parse,), of_parse),
    ensures
        of_mailbox@ == crate::mailbox::mailbox_error_text(*mailbox),
        of_publisher@ == crate::sbcp::publisher_error_text(*publisher),
        of_config@ == crate::config::config_error_text(*config),
        of_parse@ == "no numeric chain ID prefix in '"@ + parse.0@ + "'"@,
{
}

/// A value takes the place of a setting, and none leaves it.
pub proof fn overriding_a_value<T>(value: Option<T>, target: &mut T)
    requires
        call_ensures(override_with::<T>, (value, target), ()),
    ensures
        match value {
            Some(v) => *final(target) == v,
            None => *final(target) == *old(target),
        },
{
}

/// Where nothing else is said, the defaults hold.
pub proof fn taking_the_defaults(c: Config)
    requires
        call_ensures(<Config as Default>::default, (), c),
    ensures
        c.server.listen_addr@ == ":8080"@,
        c.server.max_message_size == 4 * 1024 * 1024,
        c.api.listen_addr@ == ":8081"@,
        c.api.request_timeout@ == 15 * 1_000_000_000,
        c.consensus.timeout@ == 60 * 1_000_000_000,
        c.consensus.period_duration@ == 64 * 60 * 1_000_000_000,
        c.consensus.proof_window@ == 2 * 60 * 60 * 1_000_000_000,
        c.metrics.enabled,
        c.log.level@ == "info"@,
        !c.log.pretty,
        c.settlement.l1_rpc_url@.len() == 0,
        c.settlement.l2oo_address@.len() == 0,
        c.settlement.proposer_key@.len() == 0,
        !c.mock_mode,
{
    default_settings();
    assert(c@ == ConfigView::defaults());
    crate::config_laws::config_view_is_faithful(c);
}

/// A span has the length that it was made with, and is empty exactly if that is zero.
pub proof fn making_a_span(secs: u64, d: Duration, nanos: u128, e: Duration, n: u128, zero: bool)
    requires
        call_ensures(Duration::from_secs, (secs,), d),
        call_ensures(Duration::from_nanos, (nanos,), e),
        call_ensures(Duration::as_nanos, (&e,), n),
        call_ensures(Duration::is_zero, (&e,), zero),
    ensures
        d@ == secs * 1_000_000_000,
        e@ == nanos,
        n == nanos,
        zero <==> nanos == 0,
{
}

/// Whether a text of spans, and an environment of them, can be read is told as it is.
pub proof fn checking_spans(text: &str, fits: bool, env: &Environment, all: bool)
    requires
        call_ensures(crate::spans::check_spans_fit, (text,), fits),
        call_ensures(crate::config::check_durations_fit, (env,), all),
    ensures
        fits == crate::spans::spans_fit(text@),
        all == crate::config::durations_fit(env@),
{
}

} // verus!
