//! Laws of what the coordinator announces, sends, submits and records.
//!
//! Each law says what follows from an event, in terms of the transactions, chains and
//! proofs that the coordinator holds.

use vstd::prelude::*;
#[allow(unused_imports)]
use vstd::string::*;

#[allow(unused_imports)]
use crate::coordinator::{
    abort_effects, bumped, bumped_by, generated, span, spec_request, CoordinatorView,
};
#[allow(unused_imports)]
use crate::coordinator_laws::{commit_takes_unanimity, inclusion_takes_all};
#[allow(unused_imports)]
use crate::coordinator_model::{active_in_order, ChainProofView, CoordinatorStateView};
#[allow(unused_imports)]
use crate::effects::{effect_views, Effect, EffectView, MetricUpdate};
#[allow(unused_imports)]
use crate::mailbox::{mailboxes_agree, proof_views, ProofDataView};
#[allow(unused_imports)]
use crate::messages::{
    DecidedView, MailboxMessageView, MessageView, PayloadView, RollbackView, StartInstanceView,
    StartPeriodView, TransactionRequestView, XtRequestView,
};
#[allow(unused_imports)]
use crate::text::{hex_lower, hex_lower_injective};
#[allow(unused_imports)]
use crate::time::{duration_exists, Duration};
#[allow(unused_imports)]
use crate::types::{dedup_properties, participants, ChainId, InstanceId, PeriodId, SequenceNumber};

verus! {

/// The messages that are broadcast, in order.
pub open spec fn broadcasts(effects: Seq<EffectView>) -> Seq<MessageView>
    decreases effects.len(),
{
    if effects.len() == 0 {
        Seq::empty()
    } else {
        match effects.last() {
            EffectView::Broadcast(m) => broadcasts(effects.drop_last()).push(m),
            _ => broadcasts(effects.drop_last()),
        }
    }
}

/// The messages that are sent to single clients, in order.
pub open spec fn sends(effects: Seq<EffectView>) -> Seq<(Seq<char>, MessageView)>
    decreases effects.len(),
{
    if effects.len() == 0 {
        Seq::empty()
    } else {
        match effects.last() {
            EffectView::Send { client_id, message } => sends(effects.drop_last()).push(
                (client_id, message),
            ),
            _ => sends(effects.drop_last()),
        }
    }
}

/// The superblocks that are submitted with their proofs, in order.
pub open spec fn submissions(effects: Seq<EffectView>) -> Seq<(u64, Map<u64, ProofDataView>)>
    decreases effects.len(),
{
    if effects.len() == 0 {
        Seq::empty()
    } else {
        match effects.last() {
            EffectView::Submit { superblock_number, proofs } => submissions(
                effects.drop_last(),
            ).push((superblock_number, proofs)),
            _ => submissions(effects.drop_last()),
        }
    }
}

/// The changes to metrics, in order.
pub open spec fn records(effects: Seq<EffectView>) -> Seq<MetricUpdate>
    decreases effects.len(),
{
    if effects.len() == 0 {
        Seq::empty()
    } else {
        match effects.last() {
            EffectView::Record(u) => records(effects.drop_last()).push(u),
            _ => records(effects.drop_last()),
        }
    }
}

/// One more effect adds to the list of its sort, and to no other.
proof fn one_more_effect(effects: Seq<EffectView>, e: EffectView)
    ensures
        broadcasts(effects.push(e)) == (match e {
            EffectView::Broadcast(m) => broadcasts(effects).push(m),
            _ => broadcasts(effects),
        }),
        sends(effects.push(e)) == (match e {
            EffectView::Send { client_id, message } => sends(effects).push((client_id, message)),
            _ => sends(effects),
        }),
        submissions(effects.push(e)) == (match e {
            EffectView::Submit { superblock_number, proofs } => submissions(effects).push(
                (superblock_number, proofs),
            ),
            _ => submissions(effects),
        }),
        records(effects.push(e)) == (match e {
            EffectView::Record(u) => records(effects).push(u),
            _ => records(effects),
        }),
{
    assert(effects.push(e).drop_last() =~= effects);
    assert(effects.push(e).last() == e);
}

/// Up to four effects fall into the lists of their sorts.
proof fn sorted_out(a: EffectView, b: EffectView, c: EffectView, d: EffectView)
    ensures
        sort_of_one(seq![a], Seq::empty(), a),
        sort_of_one(seq![a, b], seq![a], b),
        sort_of_one(seq![a, b, c], seq![a, b], c),
        sort_of_one(seq![a, b, c, d], seq![a, b, c], d),
{
    let none = Seq::<EffectView>::empty();
    one_more_effect(none, a);
    assert(none.push(a) =~= seq![a]);
    one_more_effect(seq![a], b);
    assert(seq![a].push(b) =~= seq![a, b]);
    one_more_effect(seq![a, b], c);
    assert(seq![a, b].push(c) =~= seq![a, b, c]);
    one_more_effect(seq![a, b, c], d);
    assert(seq![a, b, c].push(d) =~= seq![a, b, c, d]);
}

/// `all` is `before` with `e` at its end, sort by sort.
spec fn sort_of_one(all: Seq<EffectView>, before: Seq<EffectView>, e: EffectView) -> bool {
    &&& broadcasts(all) == (match e {
        EffectView::Broadcast(m) => broadcasts(before).push(m),
        _ => broadcasts(before),
    })
    &&& sends(all) == (match e {
        EffectView::Send { client_id, message } => sends(before).push((client_id, message)),
        _ => sends(before),
    })
    &&& submissions(all) == (match e {
        EffectView::Submit { superblock_number, proofs } => submissions(before).push(
            (superblock_number, proofs),
        ),
        _ => submissions(before),
    })
    &&& records(all) == (match e {
        EffectView::Record(u) => records(before).push(u),
        _ => records(before),
    })
}

/// `b` is the counter `a` after one more event, modulo 2^64.
pub open spec fn counts_on(a: u64, b: u64) -> bool {
    b as int == (a + 1) % 0x1_0000_0000_0000_0000
}

/// The same clients speak for the same chains.
pub open spec fn same_registry(s: CoordinatorStateView, t: CoordinatorStateView) -> bool {
    s.chain_to_client == t.chain_to_client && s.client_to_chain == t.client_to_chain
}

/// Period, sequence and superblock numbers are the same.
pub open spec fn same_numbers(s: CoordinatorStateView, t: CoordinatorStateView) -> bool {
    &&& s.current_period_id == t.current_period_id
    &&& s.next_sequence_num == t.next_sequence_num
    &&& s.next_superblock_number == t.next_superblock_number
    &&& s.last_finalized_superblock_number == t.last_finalized_superblock_number
    &&& s.last_finalized_superblock_hash == t.last_finalized_superblock_hash
}

/// The counts of transactions are the same.
pub open spec fn same_counts(s: CoordinatorStateView, t: CoordinatorStateView) -> bool {
    &&& s.committed_xts == t.committed_xts
    &&& s.submitted_xts == t.submitted_xts
    &&& s.current_period_finalized_xts == t.current_period_finalized_xts
}

/// The collected proofs are the same.
pub open spec fn same_collection(s: CoordinatorStateView, t: CoordinatorStateView) -> bool {
    s.pending_proofs == t.pending_proofs && s.proof_collection_started
        == t.proof_collection_started
}

/// The undecided and the decided transactions are the same.
pub open spec fn same_transactions(s: CoordinatorStateView, t: CoordinatorStateView) -> bool {
    s.active_xts == t.active_xts && s.pending_confirmations == t.pending_confirmations
}

/// All transactions but `xt` are where they were.
pub open spec fn same_other_transactions(
    s: CoordinatorStateView,
    t: CoordinatorStateView,
    xt: Seq<char>,
) -> bool {
    forall|x: Seq<char>|
        x != xt ==> {
            &&& #[trigger] t.active_xts.contains_key(x) == s.active_xts.contains_key(x)
            &&& s.active_xts.contains_key(x) ==> t.active_xts[x] == s.active_xts[x]
            &&& t.pending_confirmations.contains_key(x) == s.pending_confirmations.contains_key(x)
            &&& s.pending_confirmations.contains_key(x) ==> t.pending_confirmations[x]
                == s.pending_confirmations[x]
        }
}

/// The settings are the same.
pub open spec fn same_settings(c: CoordinatorView, d: CoordinatorView) -> bool {
    &&& c.scp_timeout == d.scp_timeout
    &&& c.proof_window == d.proof_window
    &&& c.settles_on_l1 == d.settles_on_l1
}

/// `m` is a message of the publisher that carries `p`.
pub open spec fn publisher_says(m: MessageView, p: PayloadView) -> bool {
    m.sender_id == "publisher"@ && m.payload == Some(p)
}

/// `chain` may vote on `xt`: the transaction is undecided, the chain takes part, and it
/// has not voted.
pub open spec fn may_vote(s: CoordinatorStateView, xt: Seq<char>, chain: u64) -> bool {
    &&& s.active_xts.contains_key(xt)
    &&& s.active_xts[xt].chains.contains(ChainId(chain))
    &&& !s.active_xts[xt].votes.contains_key(chain)
}

/// Every participant of `xt` but `chain` has voted yes.
pub open spec fn others_agreed(s: CoordinatorStateView, xt: Seq<char>, chain: u64) -> bool {
    forall|k: u64|
        k != chain && s.active_xts[xt].chains.contains(ChainId(k))
            ==> #[trigger] s.active_xts[xt].votes.contains_key(k) && s.active_xts[xt].votes[k]
}

/// The outcome that a vote brings about, in terms of the other votes.
pub proof fn outcome_of_a_vote(s: CoordinatorStateView, xt: Seq<char>, chain: u64, vote: bool)
    requires
        s.valid(),
    ensures
        s.vote_counts(xt, chain) == may_vote(s, xt, chain),
        s.vote_decides(xt, chain, vote) == (if !may_vote(s, xt, chain) {
            None
        } else if !vote {
            Some(false)
        } else if others_agreed(s, xt, chain) {
            Some(true)
        } else {
            None
        }),
{
    commit_takes_unanimity(s, xt, chain, vote);
    if s.vote_decides(xt, chain, vote) == Some(true) {
        assert(others_agreed(s, xt, chain));
    }
}

/// From `c` to `after`, with `effects`: what a vote is answered by: the outcome that it
/// brings about, where it brings one about.
pub open spec fn answers_vote(
    c: CoordinatorView,
    after: CoordinatorView,
    effects: Seq<EffectView>,
    id: Seq<u8>,
    chain: u64,
    vote: bool,
    now: nat,
) -> bool {
    let xt = hex_lower(id);
    let start = c.state.active_xts[xt].start_time;
    let commits = vote && others_agreed(c.state, xt, chain);
    &&& sends(effects).len() == 0
    &&& submissions(effects).len() == 0
    &&& same_settings(c, after)
    &&& after.messages_processed == c.messages_processed
    &&& if may_vote(c.state, xt, chain) && (!vote || commits) {
        &&& counts_on(c.broadcasts_sent, after.broadcasts_sent)
        &&& broadcasts(effects).len() == 1
        &&& publisher_says(
            broadcasts(effects)[0],
            PayloadView::Decided(DecidedView { instance_id: id, decision: commits }),
        )
        &&& records(effects).len() == 3
        &&& records(effects)[0] == (if commits {
            MetricUpdate::XtCommitted
        } else {
            MetricUpdate::XtAborted
        })
        &&& records(effects)[1] matches MetricUpdate::DecisionLatency(d) && (if now
            >= start {
            start + d@ == now
        } else {
            d@ == 0
        })
        &&& records(effects)[2] == MetricUpdate::BroadcastSent
    } else {
        &&& effects.len() == 0
        &&& after.broadcasts_sent == c.broadcasts_sent
    }
}

/// A vote that is not the sender's to give changes nothing and is answered by nothing.
/// One that is has the instance's outcome announced once, and only where it is known:
/// a no announces an abort, and a yes announces a commit exactly if all others have
/// voted yes, whatever other transactions there are. The metrics tell the same
/// outcome, and how long the transaction was undecided.
pub proof fn vote_is_answered_by_its_outcome(
    c: CoordinatorView,
    id: Seq<u8>,
    chain: u64,
    vote: bool,
    now: nat,
)
    requires
        c.state.valid(),
        now <= u128::MAX,
    ensures
        answers_vote(c, c.on_vote(id, chain, vote, now).0, c.on_vote(id, chain, vote, now).1, id,
            chain, vote, now),
{
    let xt = hex_lower(id);
    let s = c.state;
    outcome_of_a_vote(s, xt, chain, vote);
    let (after, e) = c.on_vote(id, chain, vote, now);
    if s.vote_decides(xt, chain, vote) is Some {
        let commits = vote && others_agreed(s, xt, chain);
        let start = s.active_xts[xt].start_time;
        duration_exists(crate::time::elapsed(start, now));
        let d = span(crate::time::elapsed(start, now));
        assert(d@ == crate::time::elapsed(start, now));
        let outcome = if commits {
            MetricUpdate::XtCommitted
        } else {
            MetricUpdate::XtAborted
        };
        let told = e[3]->Broadcast_0;
        assert(e =~= seq![
            EffectView::Record(outcome),
            EffectView::Record(MetricUpdate::DecisionLatency(d)),
            EffectView::Record(MetricUpdate::BroadcastSent),
            EffectView::Broadcast(told),
        ]);
        sorted_out(
            EffectView::Record(outcome),
            EffectView::Record(MetricUpdate::DecisionLatency(d)),
            EffectView::Record(MetricUpdate::BroadcastSent),
            EffectView::Broadcast(told),
        );
        assert(broadcasts(e) =~= seq![told]);
        assert(records(e) =~= seq![
            outcome,
            MetricUpdate::DecisionLatency(d),
            MetricUpdate::BroadcastSent,
        ]);
        assert(publisher_says(
            told,
            PayloadView::Decided(DecidedView { instance_id: id, decision: commits }),
        ));
        assert(counts_on(c.broadcasts_sent, after.broadcasts_sent));
    } else {
        assert(e.len() == 0);
    }
}

/// From `c` to `after`, with `effects`: how a vote moves its transaction on.
pub open spec fn records_vote(
    c: CoordinatorView,
    after: CoordinatorView,
    id: Seq<u8>,
    chain: u64,
    vote: bool,
) -> bool {
    let xt = hex_lower(id);
    let s = c.state;
    let t = after.state;
    let a = s.active_xts[xt];
    let commits = vote && others_agreed(s, xt, chain);
    &&& same_registry(s, t)
    &&& same_numbers(s, t)
    &&& same_collection(s, t)
    &&& same_other_transactions(s, t, xt)
    &&& t.submitted_xts == s.submitted_xts
    &&& t.current_period_finalized_xts == s.current_period_finalized_xts
    &&& if !may_vote(s, xt, chain) {
        same_transactions(s, t) && same_counts(s, t)
    } else if !vote || commits {
        &&& !t.active_xts.contains_key(xt)
        &&& t.pending_confirmations.contains_key(xt)
        &&& t.pending_confirmations[xt].chains == a.chains
        &&& t.pending_confirmations[xt].received_at == a.received_at
        &&& t.pending_confirmations[xt].instance_id == a.instance_id
        &&& forall|k: u64| !#[trigger] t.pending_confirmations[xt].confirmed.contains(k)
        &&& t.committed_xts == s.committed_xts + (if commits {
            1int
        } else {
            0int
        })
    } else {
        &&& t.active_xts.contains_key(xt)
        &&& t.pending_confirmations == s.pending_confirmations
        &&& same_counts(s, t)
        &&& t.active_xts[xt].chains == a.chains
        &&& t.active_xts[xt].received_at == a.received_at
        &&& t.active_xts[xt].instance_id == a.instance_id
        &&& t.active_xts[xt].start_time == a.start_time
        &&& t.active_xts[xt].votes.contains_key(chain)
        &&& t.active_xts[xt].votes[chain]
        &&& forall|k: u64|
            k != chain ==> {
                &&& #[trigger] t.active_xts[xt].votes.contains_key(k)
                    == a.votes.contains_key(k)
                &&& a.votes.contains_key(k) ==> t.active_xts[xt].votes[k] == a.votes[k]
            }
    }
}

/// A vote that is the sender's to give is recorded. Where it is a no, or the last yes,
/// the transaction leaves the undecided ones and awaits inclusion by its chains, none
/// of which has confirmed; a commit counts as one. Nothing else changes.
pub proof fn vote_moves_its_transaction_only(
    c: CoordinatorView,
    id: Seq<u8>,
    chain: u64,
    vote: bool,
    now: nat,
)
    requires
        c.state.valid(),
        c.vote_fits(id, chain, vote),
    ensures
        records_vote(c, c.on_vote(id, chain, vote, now).0, id, chain, vote),
{
    let xt = hex_lower(id);
    let s = c.state;
    outcome_of_a_vote(s, xt, chain, vote);
    let t = c.on_vote(id, chain, vote, now).0.state;
    assert(t == s.voted(xt, chain, vote));
    assert(same_other_transactions(s, t, xt));
}

/// A cross-chain request is taken on exactly if it names two different chains and
/// fewer than a hundred transactions are undecided.
pub proof fn requests_of_two_chains_are_taken_on(c: CoordinatorView, request: XtRequestView)
    ensures
        c.accepts(request) <==> c.state.active_xts.len() < 100 && exists|i: int, j: int|
            0 <= i < request.transaction_requests.len() && 0 <= j
                < request.transaction_requests.len() && (
            #[trigger] request.transaction_requests[i]).chain_id != (
            #[trigger] request.transaction_requests[j]).chain_id,
{
    let list = request.transaction_requests;
    let named = spec_request(request).map_values(|t: (ChainId, Seq<Seq<u8>>)| t.0);
    let chains = participants(spec_request(request));
    dedup_properties(named);
    if exists|i: int, j: int|
        0 <= i < list.len() && 0 <= j < list.len() && (#[trigger] list[i]).chain_id != (
        #[trigger] list[j]).chain_id {
        let (i, j) = choose|i: int, j: int|
            0 <= i < list.len() && 0 <= j < list.len() && (#[trigger] list[i]).chain_id != (
            #[trigger] list[j]).chain_id;
        assert(named[i] == ChainId(list[i].chain_id));
        assert(named[j] == ChainId(list[j].chain_id));
        assert(named.contains(named[i]) && named.contains(named[j]));
        assert(chains.contains(named[i]) && chains.contains(named[j]));
        let a = choose|a: int| 0 <= a < chains.len() && chains[a] == named[i];
        let b = choose|b: int| 0 <= b < chains.len() && chains[b] == named[j];
        assert(a != b);
    } else if chains.len() >= 2 {
        assert(chains.contains(chains[0]) && chains.contains(chains[1]));
        assert(named.contains(chains[0]) && named.contains(chains[1]));
        let i = choose|i: int| 0 <= i < named.len() && named[i] == chains[0];
        let j = choose|j: int| 0 <= j < named.len() && named[j] == chains[1];
        assert(list[i].chain_id != list[j].chain_id);
    }
}

/// From `c` to `after`, with `effects`: the announcement of a request that is taken on.
pub open spec fn announces_request(
    c: CoordinatorView,
    after: CoordinatorView,
    effects: Seq<EffectView>,
    id: Seq<u8>,
    request: XtRequestView,
) -> bool {
    &&& same_settings(c, after)
    &&& after.messages_processed == c.messages_processed
    &&& counts_on(c.broadcasts_sent, after.broadcasts_sent)
    &&& sends(effects).len() == 0
    &&& submissions(effects).len() == 0
    &&& records(effects) == seq![MetricUpdate::BroadcastSent, MetricUpdate::XtStarted]
    &&& broadcasts(effects).len() == 1
    &&& broadcasts(effects)[0].sender_id == "publisher"@
    &&& broadcasts(effects)[0].payload matches Some(PayloadView::StartInstance(s)) && {
        &&& s.instance_id == id
        &&& s.period_id == c.state.current_period_id
        &&& s.sequence_number == c.state.next_sequence_num
        &&& s.xt_request == Some(request)
    }
}

/// A request that is taken on is announced once: the announcement names the instance,
/// its period and its number, and carries the request exactly as it came in.
pub proof fn request_is_announced_in_full(
    c: CoordinatorView,
    id: Seq<u8>,
    request: XtRequestView,
    received_at: nat,
    now: nat,
)
    ensures
        announces_request(c, c.on_request(id, request, received_at, now).0, c.on_request(id,
            request, received_at, now).1, id, request),
{
    let e = c.on_request(id, request, received_at, now).1;
    sorted_out(e[0], e[1], e[2], e[2]);
    assert(e =~= seq![e[0], e[1], e[2]]);
    assert(records(e) =~= seq![MetricUpdate::BroadcastSent, MetricUpdate::XtStarted]);
}

/// From `c` to `after`, with `effects`: the start of an instance.
pub open spec fn starts_instance(
    c: CoordinatorView,
    after: CoordinatorView,
    id: Seq<u8>,
    request: XtRequestView,
    received_at: nat,
    now: nat,
) -> bool {
    let xt = hex_lower(id);
    let s = c.state;
    let t = after.state;
    &&& same_registry(s, t)
    &&& same_counts(s, t)
    &&& same_collection(s, t)
    &&& same_other_transactions(s, t, xt)
    &&& t.pending_confirmations == s.pending_confirmations
    &&& t.current_period_id == s.current_period_id
    &&& t.next_sequence_num == s.next_sequence_num + 1
    &&& t.next_superblock_number == s.next_superblock_number
    &&& t.last_finalized_superblock_number == s.last_finalized_superblock_number
    &&& t.last_finalized_superblock_hash == s.last_finalized_superblock_hash
    &&& t.active_xts.contains_key(xt)
    &&& t.active_xts[xt].instance_id == id
    &&& t.active_xts[xt].received_at == received_at
    &&& t.active_xts[xt].start_time == now
    &&& t.active_xts[xt].votes.dom() == Set::<u64>::empty()
    &&& t.active_xts[xt].chains.no_duplicates()
    &&& forall|k: u64| #[trigger]
        t.active_xts[xt].chains.contains(ChainId(k)) <==> exists|i: int|
            0 <= i < request.transaction_requests.len() && (
            #[trigger] request.transaction_requests[i]).chain_id == k
}

/// An instance that is started has exactly the chains that the announced request names
/// as its participants, each once, and no vote yet. The next instance gets the next
/// number, and nothing else changes.
pub proof fn request_starts_its_instance_only(
    c: CoordinatorView,
    id: Seq<u8>,
    request: XtRequestView,
    received_at: nat,
    now: nat,
)
    requires
        c.state.next_sequence_num < u64::MAX,
    ensures
        starts_instance(c, c.on_request(id, request, received_at, now).0, id, request,
            received_at, now),
{
    let xt = hex_lower(id);
    let t = c.on_request(id, request, received_at, now).0.state;
    let list = request.transaction_requests;
    let named = spec_request(request).map_values(|t: (ChainId, Seq<Seq<u8>>)| t.0);
    dedup_properties(named);
    assert(t.active_xts[xt].votes.dom() =~= Set::<u64>::empty());
    assert forall|k: u64| #[trigger]
        t.active_xts[xt].chains.contains(ChainId(k)) <==> exists|i: int|
        0 <= i < list.len() && (#[trigger] list[i]).chain_id == k by {
        if named.contains(ChainId(k)) {
            let i = choose|i: int| 0 <= i < named.len() && named[i] == ChainId(k);
            assert(list[i].chain_id == k);
        }
        if exists|i: int| 0 <= i < list.len() && (#[trigger] list[i]).chain_id == k {
            let i = choose|i: int| 0 <= i < list.len() && (#[trigger] list[i]).chain_id == k;
            assert(named[i] == ChainId(k));
        }
    }
}

/// The protocol layer sees each entry of a request: its chain and its transactions.
pub proof fn requests_are_seen_in_full(request: XtRequestView, i: int)
    requires
        0 <= i < request.transaction_requests.len(),
    ensures
        spec_request(request).len() == request.transaction_requests.len(),
        spec_request(request)[i].0.0 == request.transaction_requests[i].chain_id,
        spec_request(request)[i].1 == request.transaction_requests[i].transaction,
{
}

/// An instance's identifier is what the generator gives for its period, its number and
/// its request.
pub proof fn identifiers_are_generated<
    G: Fn(PeriodId, SequenceNumber, &crate::types::XtRequest) -> InstanceId,
>(
    generate: G,
    period: u64,
    number: u64,
    request: Seq<(ChainId, Seq<Seq<u8>>)>,
    id: InstanceId,
)
    requires
        generated(generate, period, number, request, id),
    ensures
        exists|q: crate::types::XtRequest|
            q@ == request && #[trigger] generate.ensures(
                (PeriodId(period), SequenceNumber(number), &q),
                id,
            ),
{
}

/// Whether the transaction `xt` has been undecided for `timeout` or longer at `now`.
pub open spec fn overdue(s: CoordinatorStateView, xt: Seq<char>, now: nat, timeout: nat) -> bool {
    &&& s.active_xts.contains_key(xt)
    &&& timeout == 0 || s.active_xts[xt].start_time + timeout <= now
}

/// What a list of aborts has broadcast, sent, submitted and recorded.
proof fn aborts_sorted_out(list: Seq<(Seq<char>, MessageView)>)
    ensures
        broadcasts(abort_effects(list)) == list.map_values(|a: (Seq<char>, MessageView)| a.1),
        sends(abort_effects(list)).len() == 0,
        submissions(abort_effects(list)).len() == 0,
        records(abort_effects(list)).len() == 2 * list.len(),
        forall|i: int|
            0 <= i < list.len() ==> #[trigger] records(abort_effects(list))[2 * i]
                == MetricUpdate::XtAborted && records(abort_effects(list))[2 * i + 1]
                == MetricUpdate::BroadcastSent,
    decreases list.len(),
{
    if list.len() > 0 {
        let init = list.drop_last();
        aborts_sorted_out(init);
        let e = abort_effects(init);
        let aborted = EffectView::Record(MetricUpdate::XtAborted);
        let counted = EffectView::Record(MetricUpdate::BroadcastSent);
        let told = EffectView::Broadcast(list.last().1);
        one_more_effect(e, aborted);
        one_more_effect(e.push(aborted), counted);
        one_more_effect(e.push(aborted).push(counted), told);
        assert forall|i: int| 0 <= i < list.len() implies #[trigger] records(
            abort_effects(list),
        )[2 * i] == MetricUpdate::XtAborted && records(abort_effects(list))[2 * i + 1]
            == MetricUpdate::BroadcastSent by {
            if i < init.len() {
                assert(records(e)[2 * i] == MetricUpdate::XtAborted);
            }
        }
    }
    assert(broadcasts(abort_effects(list)) =~= list.map_values(
        |a: (Seq<char>, MessageView)| a.1,
    ));
}

/// From `c` to `after`, with `effects`: the announcement of overdue transactions.
pub open spec fn announces_overdue(
    c: CoordinatorView,
    effects: Seq<EffectView>,
    now: nat,
) -> bool {
    let told = broadcasts(effects);
    &&& sends(effects).len() == 0
    &&& submissions(effects).len() == 0
    &&& records(effects).len() == 2 * told.len()
    &&& forall|i: int|
        0 <= i < told.len() ==> #[trigger] records(effects)[2 * i]
            == MetricUpdate::XtAborted && records(effects)[2 * i + 1]
            == MetricUpdate::BroadcastSent
    &&& told.no_duplicates()
    &&& forall|xt: Seq<char>|
        overdue(c.state, xt, now, c.scp_timeout) ==> exists|i: int|
            0 <= i < told.len() && publisher_says(
                #[trigger] told[i],
                PayloadView::Decided(
                    DecidedView {
                        instance_id: (#[trigger] c.state.active_xts[xt]).instance_id,
                        decision: false,
                    },
                ),
            )
    &&& forall|i: int|
        0 <= i < told.len() ==> exists|xt: Seq<char>|
            overdue(c.state, xt, now, c.scp_timeout) && publisher_says(
                #[trigger] told[i],
                PayloadView::Decided(
                    DecidedView {
                        instance_id: (#[trigger] c.state.active_xts[xt]).instance_id,
                        decision: false,
                    },
                ),
            )
}

/// Every overdue transaction is announced as aborted, each by exactly one broadcast of
/// its own; nothing else is broadcast, sent or submitted, and as many aborts are
/// recorded.
pub proof fn each_overdue_transaction_is_announced_once(
    c: CoordinatorView,
    list: Seq<(Seq<char>, MessageView)>,
    now: nat,
)
    requires
        c.state.valid(),
        c.state.announces_timeouts(list, now, c.scp_timeout),
    ensures
        announces_overdue(c, c.on_timeouts(list, now).1, now),
{
    let s = c.state;
    let effects = c.on_timeouts(list, now).1;
    let told = broadcasts(effects);
    aborts_sorted_out(list);
    assert forall|i: int| 0 <= i < told.len() implies exists|xt: Seq<char>|
        overdue(s, xt, now, c.scp_timeout) && publisher_says(
            #[trigger] told[i],
            PayloadView::Decided(
                DecidedView {
                    instance_id: (#[trigger] s.active_xts[xt]).instance_id,
                    decision: false,
                },
            ),
        ) by {
        let xt = list[i].0;
        assert(s.timed_out(xt, now, c.scp_timeout));
        assert(told[i] == list[i].1);
        assert(s.active_xts[xt].instance_id == s.active_xts[xt].instance_id);
    }
    assert forall|xt: Seq<char>| overdue(s, xt, now, c.scp_timeout) implies exists|i: int|
        0 <= i < told.len() && publisher_says(
            #[trigger] told[i],
            PayloadView::Decided(
                DecidedView {
                    instance_id: (#[trigger] s.active_xts[xt]).instance_id,
                    decision: false,
                },
            ),
        ) by {
        assert(s.timed_out(xt, now, c.scp_timeout));
        let i = choose|i: int| 0 <= i < list.len() && (#[trigger] list[i]).0 == xt;
        assert(told[i] == list[i].1);
    }
    assert forall|i: int, j: int|
        0 <= i < told.len() && 0 <= j < told.len() && i != j implies told[i] != told[j] by {
        assert(told[i] == list[i].1 && told[j] == list[j].1);
        assert(s.timed_out(list[i].0, now, c.scp_timeout));
        assert(s.timed_out(list[j].0, now, c.scp_timeout));
        assert(active_in_order(list[i].0, s.active_xts[list[i].0]));
        assert(active_in_order(list[j].0, s.active_xts[list[j].0]));
        if i < j {
            assert(list[i].0 != list[j].0);
        } else {
            assert(list[j].0 != list[i].0);
        }
    }
}

/// From `c` to `after`, with `effects`: how overdue transactions leave.
pub open spec fn drops_overdue(
    c: CoordinatorView,
    after: CoordinatorView,
    effects: Seq<EffectView>,
    now: nat,
) -> bool {
    let s = c.state;
    let t = after.state;
    &&& same_settings(c, after)
    &&& after.messages_processed == c.messages_processed
    &&& after.broadcasts_sent as int == (c.broadcasts_sent + broadcasts(effects).len())
        % 0x1_0000_0000_0000_0000
    &&& same_registry(s, t)
    &&& same_numbers(s, t)
    &&& same_counts(s, t)
    &&& same_collection(s, t)
    &&& t.pending_confirmations == s.pending_confirmations
    &&& forall|xt: Seq<char>| #[trigger]
        t.active_xts.contains_key(xt) <==> s.active_xts.contains_key(xt) && !overdue(
            s,
            xt,
            now,
            c.scp_timeout,
        )
    &&& forall|xt: Seq<char>| #[trigger]
        t.active_xts.contains_key(xt) ==> t.active_xts[xt] == s.active_xts[xt]
    &&& t.active_xts.len() + broadcasts(effects).len() == s.active_xts.len()
}

/// The overdue transactions leave the undecided ones, as many as are announced, and
/// all others stay as they are. Nothing else changes.
pub proof fn overdue_transactions_leave(
    c: CoordinatorView,
    list: Seq<(Seq<char>, MessageView)>,
    now: nat,
)
    requires
        c.state.valid(),
        c.state.announces_timeouts(list, now, c.scp_timeout),
    ensures
        drops_overdue(c, c.on_timeouts(list, now).0, c.on_timeouts(list, now).1, now),
{
    let s = c.state;
    let t = c.on_timeouts(list, now).0.state;
    aborts_sorted_out(list);
    counts_on_by(c.broadcasts_sent, list.len());
    let ids = list.map_values(|a: (Seq<char>, MessageView)| a.0);
    assert(ids.no_duplicates()) by {
        assert forall|i: int, j: int|
            0 <= i < ids.len() && 0 <= j < ids.len() && i != j implies ids[i] != ids[j] by {
            if i < j {
                assert(list[i].0 != list[j].0);
            } else {
                assert(list[j].0 != list[i].0);
            }
        }
    }
    ids.unique_seq_to_set();
    assert(s.active_xts.dom().difference(t.active_xts.dom()) =~= ids.to_set()) by {
        assert forall|xt: Seq<char>| s.active_xts.dom().difference(
            t.active_xts.dom(),
        ).contains(xt) <==> ids.to_set().contains(xt) by {
            if s.timed_out(xt, now, c.scp_timeout) {
                let i = choose|i: int| 0 <= i < list.len() && (#[trigger] list[i]).0 == xt;
                assert(ids[i] == xt);
            }
            if ids.contains(xt) {
                let i = choose|i: int| 0 <= i < ids.len() && ids[i] == xt;
                assert(s.timed_out(list[i].0, now, c.scp_timeout));
            }
        }
    }
    assert(t.active_xts.dom().subset_of(s.active_xts.dom()));
    vstd::set_lib::lemma_len_subset(t.active_xts.dom(), s.active_xts.dom());
    vstd::set_lib::lemma_set_disjoint_lens(
        t.active_xts.dom(),
        s.active_xts.dom().difference(t.active_xts.dom()),
    );
    assert(t.active_xts.dom() + s.active_xts.dom().difference(t.active_xts.dom())
        =~= s.active_xts.dom());
}

/// A counter after several events, modulo 2^64.
proof fn counts_on_by(n: u64, times: nat)
    ensures
        bumped_by(n, times) as int == (n + times) % 0x1_0000_0000_0000_0000,
    decreases times,
{
    if times > 0 {
        counts_on_by(n, (times - 1) as nat);
    }
}

/// From `c` to `after`, with `effects`: the way of a mailbox message.
pub open spec fn relays_mailbox(
    c: CoordinatorView,
    after: CoordinatorView,
    effects: Seq<EffectView>,
    mailbox: MailboxMessageView,
) -> bool {
    let to = mailbox.destination_chain;
    &&& after.state == c.state
    &&& same_settings(c, after)
    &&& after.messages_processed == c.messages_processed
    &&& broadcasts(effects).len() == 0
    &&& submissions(effects).len() == 0
    &&& if c.state.chain_to_client.contains_key(to) {
        &&& counts_on(c.broadcasts_sent, after.broadcasts_sent)
        &&& records(effects) == seq![MetricUpdate::BroadcastSent]
        &&& sends(effects).len() == 1
        &&& sends(effects)[0].0 == c.state.chain_to_client[to]
        &&& publisher_says(sends(effects)[0].1, PayloadView::MailboxMessage(mailbox))
    } else {
        effects.len() == 0 && after.broadcasts_sent == c.broadcasts_sent
    }
}

/// A mailbox message goes, as it came in, to the one client that speaks for its
/// destination chain; where there is none it goes nowhere. The state stays as it is.
pub proof fn mailbox_messages_reach_their_destination(
    c: CoordinatorView,
    mailbox: MailboxMessageView,
)
    ensures
        relays_mailbox(c, c.on_mailbox(mailbox).0, c.on_mailbox(mailbox).1, mailbox),
{
    let e = c.on_mailbox(mailbox).1;
    if e.len() > 0 {
        sorted_out(e[0], e[1], e[1], e[1]);
        assert(e =~= seq![e[0], e[1]]);
        assert(records(e) =~= seq![MetricUpdate::BroadcastSent]);
    }
}

/// Whether `chain` may confirm `xt`: inclusion is awaited, the chain takes part, and it
/// has not confirmed.
pub open spec fn may_confirm(s: CoordinatorStateView, xt: Seq<char>, chain: u64) -> bool {
    &&& s.pending_confirmations.contains_key(xt)
    &&& s.pending_confirmations[xt].chains.contains(ChainId(chain))
    &&& !s.pending_confirmations[xt].confirmed.contains(chain)
}

/// Every participant of `xt` but `chain` has confirmed.
pub open spec fn others_confirmed(s: CoordinatorStateView, xt: Seq<char>, chain: u64) -> bool {
    forall|k: u64|
        k != chain && s.pending_confirmations[xt].chains.contains(ChainId(k))
            ==> #[trigger] s.pending_confirmations[xt].confirmed.contains(k)
}

/// From `c` to `after`, with `effects`: how a confirmation is taken.
pub open spec fn takes_confirmation(
    c: CoordinatorView,
    after: CoordinatorView,
    effects: Seq<EffectView>,
    id: Seq<u8>,
    chain: u64,
    now: nat,
) -> bool {
    let xt = hex_lower(id);
    let s = c.state;
    let t = after.state;
    let p = s.pending_confirmations[xt];
    &&& same_settings(c, after)
    &&& after.messages_processed == c.messages_processed
    &&& after.broadcasts_sent == c.broadcasts_sent
    &&& broadcasts(effects).len() == 0
    &&& sends(effects).len() == 0
    &&& submissions(effects).len() == 0
    &&& same_registry(s, t)
    &&& same_numbers(s, t)
    &&& same_counts(s, t)
    &&& same_collection(s, t)
    &&& t.active_xts == s.active_xts
    &&& same_other_transactions(s, t, xt)
    &&& if !may_confirm(s, xt, chain) {
        t.pending_confirmations == s.pending_confirmations && effects.len() == 0
    } else if others_confirmed(s, xt, chain) {
        &&& !t.pending_confirmations.contains_key(xt)
        &&& records(effects).len() == 1
        &&& records(effects)[0] matches MetricUpdate::BlockInclusionLatency(d) && (if now
            >= p.received_at {
            p.received_at + d@ == now
        } else {
            d@ == 0
        })
    } else {
        &&& effects.len() == 0
        &&& t.pending_confirmations.contains_key(xt)
        &&& t.pending_confirmations[xt].chains == p.chains
        &&& t.pending_confirmations[xt].received_at == p.received_at
        &&& t.pending_confirmations[xt].instance_id == p.instance_id
        &&& forall|k: u64| #[trigger]
            t.pending_confirmations[xt].confirmed.contains(k) <==> k == chain
                || p.confirmed.contains(k)
    }
}

/// A confirmation that is the sender's to give is recorded. The last one takes the
/// transaction out and has the time since its request recorded; nothing is announced,
/// and nothing else changes.
pub proof fn confirmations_lead_to_inclusion(
    c: CoordinatorView,
    id: Seq<u8>,
    chain: u64,
    now: nat,
)
    requires
        c.state.valid(),
        now <= u128::MAX,
    ensures
        takes_confirmation(c, c.on_confirmed(id, chain, now).0, c.on_confirmed(id, chain, now).1,
            id, chain, now),
{
    let xt = hex_lower(id);
    inclusion_takes_all(c.state, xt, chain);
    assert(may_confirm(c.state, xt, chain) == c.state.confirmation_counts(xt, chain));
    let e = c.on_confirmed(id, chain, now).1;
    if e.len() > 0 {
        sorted_out(e[0], e[0], e[0], e[0]);
        assert(e =~= seq![e[0]]);
        duration_exists(
            crate::time::elapsed(c.state.pending_confirmations[xt].received_at, now),
        );
    }
}

/// From `c` to `after`, with `effects`: the beginning of a period.
pub open spec fn announces_period(
    c: CoordinatorView,
    after: CoordinatorView,
    effects: Seq<EffectView>,
) -> bool {
    let s = c.state;
    let t = after.state;
    &&& same_settings(c, after)
    &&& after.messages_processed == c.messages_processed
    &&& counts_on(c.broadcasts_sent, after.broadcasts_sent)
    &&& sends(effects).len() == 0
    &&& submissions(effects).len() == 0
    &&& records(effects) == seq![
        MetricUpdate::XtFinalisedPerPeriod(s.current_period_finalized_xts),
        MetricUpdate::BroadcastSent,
        MetricUpdate::PeriodBroadcast,
    ]
    &&& broadcasts(effects).len() == 1
    &&& broadcasts(effects)[0].sender_id == "publisher"@
    &&& broadcasts(effects)[0].payload matches Some(PayloadView::StartPeriod(p)) && {
        &&& p.period_id == s.current_period_id + 1
        &&& p.superblock_number == s.last_finalized_superblock_number + 1
    }
    &&& same_registry(s, t)
    &&& same_transactions(s, t)
    &&& same_collection(s, t)
    &&& t.committed_xts == s.committed_xts
    &&& t.submitted_xts == s.submitted_xts
    &&& t.current_period_finalized_xts == 0
    &&& t.current_period_id == s.current_period_id + 1
    &&& t.next_sequence_num == 1
    &&& t.next_superblock_number == s.next_superblock_number
    &&& t.last_finalized_superblock_number == s.last_finalized_superblock_number
    &&& t.last_finalized_superblock_hash == s.last_finalized_superblock_hash
}

/// A new period is announced once, under the next number, with the superblock that
/// follows the newest settled one; the metrics get how many transactions were confirmed
/// in the period that ends. Numbering and that count start over, and nothing else
/// changes.
pub proof fn periods_are_announced_in_order(c: CoordinatorView)
    requires
        c.state.valid(),
        c.state.current_period_id < u64::MAX,
    ensures
        announces_period(c, c.on_period().0, c.on_period().1),
{
    let e = c.on_period().1;
    sorted_out(e[0], e[1], e[2], e[3]);
    assert(e =~= seq![e[0], e[1], e[2], e[3]]);
    assert(records(e) =~= seq![
        MetricUpdate::XtFinalisedPerPeriod(c.state.current_period_finalized_xts),
        MetricUpdate::BroadcastSent,
        MetricUpdate::PeriodBroadcast,
    ]);
}

/// Whether some chain is registered, and each registered one but `chain` has handed in
/// a proof.
pub open spec fn others_proved(s: CoordinatorStateView, chain: u64) -> bool {
    &&& exists|k: u64| s.chain_to_client.contains_key(k)
    &&& forall|k: u64| #[trigger]
        s.chain_to_client.contains_key(k) && k != chain ==> s.pending_proofs.contains_key(k)
}

/// `proofs` are the collected ones, with `data` as that of `chain`.
pub open spec fn collected_with(
    s: CoordinatorStateView,
    chain: u64,
    data: ProofDataView,
    proofs: Map<u64, ProofDataView>,
) -> bool {
    forall|k: u64|
        {
            &&& #[trigger] proofs.contains_key(k) <==> k == chain
                || s.pending_proofs.contains_key(k)
            &&& k == chain ==> proofs[k] == data
            &&& k != chain && s.pending_proofs.contains_key(k) ==> proofs[k]
                == s.pending_proofs[k].data
        }
}

/// From `c` to `after`, with `effects`: the submission of proofs.
pub open spec fn submits_proofs(
    c: CoordinatorView,
    after: CoordinatorView,
    effects: Seq<EffectView>,
    chain: u64,
    data: ProofDataView,
    proofs: Map<u64, ProofDataView>,
) -> bool {
    &&& same_settings(c, after)
    &&& after.messages_processed == c.messages_processed
    &&& after.broadcasts_sent == c.broadcasts_sent
    &&& broadcasts(effects).len() == 0
    &&& sends(effects).len() == 0
    &&& records(effects).len() == 0
    &&& submissions(effects) == (if c.settles_on_l1 && others_proved(c.state, chain)
        && mailboxes_agree(proofs) {
        seq![((c.state.last_finalized_superblock_number + 1) as u64, proofs)]
    } else {
        Seq::empty()
    })
}

/// A proof is answered by at most one submission, and by nothing else. There is one
/// exactly if the publisher settles, every registered chain now has a proof, and the
/// mailboxes in these proofs agree; it has the number after the newest settled one,
/// and the newest proof of each chain.
pub proof fn complete_proofs_are_submitted(
    c: CoordinatorView,
    superblock_number: u64,
    chain: u64,
    data: ProofDataView,
    now: nat,
    proofs: Map<u64, ProofDataView>,
)
    requires
        c.state.valid(),
        collected_with(c.state, chain, data, proofs),
    ensures
        submits_proofs(c, c.on_proof(superblock_number, chain, data, now).0,
            c.on_proof(superblock_number, chain, data, now).1, chain, data, proofs),
{
    let s = c.state;
    let p = ChainProofView { superblock_number, data };
    let handed = crate::coordinator_model::proof_data(s.proofs_with(chain, p));
    assert(handed =~= proofs) by {
        assert forall|k: u64| handed.contains_key(k) <==> proofs.contains_key(k) by {}
        assert forall|k: u64| #[trigger] proofs.contains_key(k) implies handed[k] == proofs[k] by {}
    }
    proofs_are_complete(s, chain, p);
    let e = c.on_proof(superblock_number, chain, data, now).1;
    if e.len() > 0 {
        sorted_out(e[0], e[0], e[0], e[0]);
        assert(e =~= seq![e[0]]);
        assert(submissions(e) =~= seq![
            ((s.last_finalized_superblock_number + 1) as u64, proofs),
        ]);
    } else {
        assert(submissions(e) =~= Seq::empty());
    }
}

/// A proof completes the collection exactly if all other registered chains have handed
/// in theirs.
proof fn proofs_are_complete(s: CoordinatorStateView, chain: u64, p: ChainProofView)
    requires
        s.valid(),
    ensures
        s.proof_completes(chain, p) == others_proved(s, chain),
{
    if s.chain_to_client.len() > 0 {
        let k = s.chain_to_client.dom().choose();
        assert(s.chain_to_client.contains_key(k));
    }
    if exists|k: u64| s.chain_to_client.contains_key(k) {
        let k = choose|k: u64| s.chain_to_client.contains_key(k);
        assert(s.chain_to_client.dom().contains(k));
        assert(s.chain_to_client.len() > 0);
    }
    if s.proof_completes(chain, p) {
        assert forall|k: u64| #[trigger]
            s.chain_to_client.contains_key(k) && k != chain implies s.pending_proofs.contains_key(
            k,
        ) by {
            assert(s.proofs_with(chain, p).contains_key(k));
        }
    }
}

/// From `c` to `after`, with `effects`: the collection of a proof.
pub open spec fn collects_proof(
    c: CoordinatorView,
    after: CoordinatorView,
    effects: Seq<EffectView>,
    superblock_number: u64,
    chain: u64,
    data: ProofDataView,
    now: nat,
) -> bool {
    let s = c.state;
    let t = after.state;
    &&& same_registry(s, t)
    &&& same_numbers(s, t)
    &&& same_transactions(s, t)
    &&& t.current_period_finalized_xts == s.current_period_finalized_xts
    &&& if submissions(effects).len() > 0 {
        t.committed_xts == 0 && t.submitted_xts == s.submitted_xts + s.committed_xts
    } else {
        same_counts(s, t)
    }
    &&& if others_proved(s, chain) {
        &&& t.proof_collection_started is None
        &&& forall|k: u64| !#[trigger] t.pending_proofs.contains_key(k)
    } else {
        &&& t.proof_collection_started == Some(
            match s.proof_collection_started {
                Some(since) => since,
                None => now,
            },
        )
        &&& t.pending_proofs.contains_key(chain)
        &&& t.pending_proofs[chain].data == data
        &&& t.pending_proofs[chain].superblock_number == superblock_number
        &&& forall|k: u64|
            k != chain ==> {
                &&& #[trigger] t.pending_proofs.contains_key(k)
                    == s.pending_proofs.contains_key(k)
                &&& s.pending_proofs.contains_key(k) ==> t.pending_proofs[k]
                    == s.pending_proofs[k]
            }
    }
}

/// A proof is kept until every registered chain has one; then the collection starts
/// over. A submission takes along the transactions committed so far. Nothing else
/// changes.
pub proof fn proofs_are_collected(
    c: CoordinatorView,
    superblock_number: u64,
    chain: u64,
    data: ProofDataView,
    now: nat,
)
    requires
        c.state.valid(),
    ensures
        collects_proof(c, c.on_proof(superblock_number, chain, data, now).0,
            c.on_proof(superblock_number, chain, data, now).1, superblock_number, chain, data, now),
{
    let p = ChainProofView { superblock_number, data };
    proofs_are_complete(c.state, chain, p);
    let e = c.on_proof(superblock_number, chain, data, now).1;
    if e.len() > 0 {
        sorted_out(e[0], e[0], e[0], e[0]);
        assert(e =~= seq![e[0]]);
    }
}

/// From `c` to `after`, with `effects`: the end of a collection that lasts too long.
pub open spec fn rolls_back_overdue(
    c: CoordinatorView,
    after: CoordinatorView,
    effects: Seq<EffectView>,
    now: nat,
) -> bool {
    let s = c.state;
    let t = after.state;
    let late = s.proof_collection_started is Some && (c.proof_window == 0
        || s.proof_collection_started->0 + c.proof_window <= now);
    if late {
        &&& same_settings(c, after)
        &&& after.messages_processed == c.messages_processed
        &&& counts_on(c.broadcasts_sent, after.broadcasts_sent)
        &&& sends(effects).len() == 0
        &&& submissions(effects).len() == 0
        &&& records(effects) == seq![MetricUpdate::BroadcastSent]
        &&& broadcasts(effects).len() == 1
        &&& broadcasts(effects)[0].sender_id == "publisher"@
        &&& broadcasts(effects)[0].payload matches Some(PayloadView::Rollback(r)) && {
            &&& r.period_id == s.current_period_id
            &&& r.last_finalized_superblock_number == s.last_finalized_superblock_number
            &&& r.last_finalized_superblock_hash == s.last_finalized_superblock_hash
        }
        &&& same_registry(s, t)
        &&& same_numbers(s, t)
        &&& same_transactions(s, t)
        &&& t.committed_xts == 0
        &&& t.submitted_xts == s.submitted_xts
        &&& t.current_period_finalized_xts == s.current_period_finalized_xts
        &&& t.proof_collection_started is None
        &&& forall|k: u64| !#[trigger] t.pending_proofs.contains_key(k)
    } else {
        after == c && effects.len() == 0
    }
}

/// Where the collection of proofs has lasted for the whole window, a return to the
/// newest settled superblock is announced once; the proofs are dropped, and so are the
/// transactions that were in no submission. Else nothing happens. Nothing else changes.
pub proof fn overdue_collections_are_rolled_back(c: CoordinatorView, now: nat)
    requires
        c.state.valid(),
    ensures
        rolls_back_overdue(c, c.on_proof_window(now).0, c.on_proof_window(now).1, now),
{
    let e = c.on_proof_window(now).1;
    if e.len() > 0 {
        sorted_out(e[0], e[1], e[1], e[1]);
        assert(e =~= seq![e[0], e[1]]);
        assert(records(e) =~= seq![MetricUpdate::BroadcastSent]);
    }
}

/// A settled superblock is the newest one, and the next number follows it. Where it is
/// the one that was submitted, or a later one, the transactions in the submission are
/// final. Nothing else changes.
pub proof fn settlement_moves_on(s: CoordinatorStateView, sb: u64)
    requires
        s.valid(),
        sb < u64::MAX,
    ensures
        ({
            let t = s.settled(sb);
            &&& same_registry(s, t)
            &&& same_transactions(s, t)
            &&& same_collection(s, t)
            &&& t.current_period_id == s.current_period_id
            &&& t.next_sequence_num == s.next_sequence_num
            &&& t.last_finalized_superblock_hash == s.last_finalized_superblock_hash
            &&& t.last_finalized_superblock_number == sb
            &&& t.next_superblock_number == sb + 1
            &&& t.committed_xts == s.committed_xts
            &&& if sb > s.last_finalized_superblock_number {
                &&& t.submitted_xts == 0
                &&& t.current_period_finalized_xts == s.current_period_finalized_xts
                    + s.submitted_xts
            } else {
                &&& t.submitted_xts == s.submitted_xts
                &&& t.current_period_finalized_xts == s.current_period_finalized_xts
            }
        }),
{
}

/// A submission that failed before its superblock was settled gives its transactions
/// back to the next one. Nothing else changes.
pub proof fn failed_submission_gives_back(s: CoordinatorStateView, sb: u64)
    requires
        s.valid(),
    ensures
        ({
            let t = s.submission_failed(sb);
            &&& same_registry(s, t)
            &&& same_numbers(s, t)
            &&& same_transactions(s, t)
            &&& same_collection(s, t)
            &&& t.current_period_finalized_xts == s.current_period_finalized_xts
            &&& if sb > s.last_finalized_superblock_number {
                t.submitted_xts == 0 && t.committed_xts == s.committed_xts + s.submitted_xts
            } else {
                same_counts(s, t)
            }
        }),
{
}

/// What the settlement layer reports at start-up becomes the newest settled superblock
/// with its hash, and numbering goes on after it.
pub proof fn numbering_goes_on_after_start_up(s: CoordinatorStateView, sb: u64, hash: Seq<u8>)
    requires
        s.valid(),
        sb < u64::MAX,
    ensures
        ({
            let t = s.initialized(sb, hash);
            &&& same_registry(s, t)
            &&& same_transactions(s, t)
            &&& same_collection(s, t)
            &&& t.current_period_id == s.current_period_id
            &&& t.next_sequence_num == s.next_sequence_num
            &&& t.last_finalized_superblock_number == sb
            &&& t.next_superblock_number == sb + 1
            &&& t.last_finalized_superblock_hash == hash
        }),
{
}

/// A client that registers speaks for its chain, and the chain that it had registered
/// for before is left without a client; every other chain keeps its client, and every
/// other client its chain. Nothing else changes.
pub proof fn registration_concerns_one_client(
    s: CoordinatorStateView,
    client: Seq<char>,
    chain: u64,
)
    requires
        s.valid(),
    ensures
        ({
            let t = s.registered(client, chain);
            &&& same_numbers(s, t)
            &&& same_transactions(s, t)
            &&& same_counts(s, t)
            &&& same_collection(s, t)
            &&& t.client_to_chain.contains_key(client)
            &&& t.client_to_chain[client] == chain
            &&& forall|other: Seq<char>|
                other != client ==> {
                    &&& #[trigger] t.client_to_chain.contains_key(other)
                        == s.client_to_chain.contains_key(other)
                    &&& s.client_to_chain.contains_key(other) ==> t.client_to_chain[other]
                        == s.client_to_chain[other]
                }
            &&& t.chain_to_client.contains_key(chain)
            &&& t.chain_to_client[chain] == client
            &&& forall|k: u64|
                k != chain ==> {
                    &&& #[trigger] t.chain_to_client.contains_key(k)
                        == (s.chain_to_client.contains_key(k) && !(s.client_to_chain.contains_key(
                        client,
                    ) && s.client_to_chain[client] == k))
                    &&& t.chain_to_client.contains_key(k) ==> t.chain_to_client[k]
                        == s.chain_to_client[k]
                }
        }),
{
}

/// A coordinator starts with no client, no transaction and no proof, before its first
/// period, with the first superblock to build.
pub proof fn coordinators_start_empty(scp_timeout: nat, proof_window: nat)
    ensures
        ({
            let c = CoordinatorView::initial(scp_timeout, proof_window);
            &&& c.scp_timeout == scp_timeout
            &&& c.proof_window == proof_window
            &&& !c.settles_on_l1
            &&& c.messages_processed == 0
            &&& c.broadcasts_sent == 0
            &&& c.state.chain_to_client.dom() == Set::<u64>::empty()
            &&& c.state.client_to_chain.dom() == Set::<Seq<char>>::empty()
            &&& c.state.active_xts.dom() == Set::<Seq<char>>::empty()
            &&& c.state.pending_confirmations.dom() == Set::<Seq<char>>::empty()
            &&& c.state.pending_proofs.dom() == Set::<u64>::empty()
            &&& c.state.proof_collection_started is None
            &&& c.state.current_period_id == 0
            &&& c.state.next_sequence_num == 1
            &&& c.state.next_superblock_number == 1
            &&& c.state.last_finalized_superblock_number == 0
            &&& c.state.last_finalized_superblock_hash.len() == 0
            &&& c.state.counted() == 0
        }),
{
    let c = CoordinatorView::initial(scp_timeout, proof_window);
    assert(c.state.chain_to_client.dom() =~= Set::<u64>::empty());
    assert(c.state.client_to_chain.dom() =~= Set::<Seq<char>>::empty());
    assert(c.state.active_xts.dom() =~= Set::<Seq<char>>::empty());
    assert(c.state.pending_confirmations.dom() =~= Set::<Seq<char>>::empty());
    assert(c.state.pending_proofs.dom() =~= Set::<u64>::empty());
}

/// A message that comes in is counted, modulo 2^64, and changes nothing by that alone.
pub proof fn messages_are_counted(c: CoordinatorView)
    ensures
        c.message_counted().state == c.state,
        same_settings(c, c.message_counted()),
        c.message_counted().broadcasts_sent == c.broadcasts_sent,
        counts_on(c.messages_processed, c.message_counted().messages_processed),
{
}

/// The content of an effect is what the effect holds.
pub proof fn effect_view_is_faithful(e: Effect)
    ensures
        match e {
            Effect::Record(u) => e@ == EffectView::Record(u),
            Effect::Broadcast(m) => e@ == EffectView::Broadcast(m@),
            Effect::Send { client_id, message } => e@ == (EffectView::Send {
                client_id: client_id@,
                message: message@,
            }),
            Effect::Submit { superblock_number, proofs } => {
                e@ matches EffectView::Submit { superblock_number: n, proofs: held } && n
                    == superblock_number && held == proof_views(proofs@)
            },
        },
{
}

/// The contents of a list of effects are those of its effects, in order.
pub proof fn effect_views_are_faithful(effects: Seq<Effect>, i: int)
    requires
        0 <= i < effects.len(),
    ensures
        effect_views(effects).len() == effects.len(),
        effect_views(effects)[i] == effects[i]@,
{
}

} // verus!
