//! Laws of the two-phase commit protocol, over the states of its model.

use vstd::prelude::*;

#[allow(unused_imports)]
use crate::coordinator_model::{
    active_in_order, all_yes, confirmation_in_order, ActiveXtView, ChainProofView,
    CoordinatorStateView, PendingConfirmationView, MAX_ACTIVE_XTS,
};
#[allow(unused_imports)]
use crate::text::{hex_lower, hex_lower_injective};
#[allow(unused_imports)]
use crate::types::ChainId;

verus! {

/// The state at start-up is valid.
pub proof fn initial_is_valid()
    ensures
        CoordinatorStateView::initial().valid(),
{
}

/// Registering a chain keeps the state valid.
pub proof fn registering_keeps_valid(s: CoordinatorStateView, client: Seq<char>, chain: u64)
    requires
        s.valid(),
    ensures
        s.registered(client, chain).valid(),
{
    let t = s.registered(client, chain);
    assert forall|c: u64| #[trigger] t.chain_to_client.contains_key(c) implies {
        &&& t.client_to_chain.contains_key(t.chain_to_client[c])
        &&& t.client_to_chain[t.chain_to_client[c]] == c
    } by {
        if c != chain {
            assert(s.chain_to_client.contains_key(c));
        }
    }
}

/// Starting an instance keeps the state valid.
pub proof fn starting_keeps_valid(
    s: CoordinatorStateView,
    instance_id: Seq<u8>,
    chains: Seq<ChainId>,
    received_at: nat,
    start_time: nat,
)
    requires
        s.valid(),
        s.active_xts.len() < MAX_ACTIVE_XTS,
        chains.len() >= 2,
        chains.no_duplicates(),
    ensures
        s.started(instance_id, chains, received_at, start_time).valid(),
{
    let t = s.started(instance_id, chains, received_at, start_time);
    let id = hex_lower(instance_id);
    assert(t.active_xts.dom() =~= s.active_xts.dom().insert(id));
    assert forall|xt: Seq<char>| #[trigger] t.active_xts.contains_key(xt) implies active_in_order(
        xt,
        t.active_xts[xt],
    ) by {
        if xt != id {
            assert(s.active_xts.contains_key(xt));
        }
    }
}

/// A vote keeps the state valid.
pub proof fn voting_keeps_valid(s: CoordinatorStateView, xt: Seq<char>, chain: u64, vote: bool)
    requires
        s.valid(),
        s.vote_decides(xt, chain, vote) == Some(true) ==> s.counted() < u64::MAX,
    ensures
        s.voted(xt, chain, vote).valid(),
{
    let t = s.voted(xt, chain, vote);
    if s.vote_counts(xt, chain) {
        let a = s.active_xts[xt];
        assert(active_in_order(xt, a));
        let b = a.with_vote(chain, vote);
        assert(b.votes.dom() =~= a.votes.dom().insert(chain));
        if s.vote_decides(xt, chain, vote) is None {
            assert(active_in_order(xt, b));
            assert(t.active_xts.dom() =~= s.active_xts.dom());
        } else {
            assert(t.active_xts.dom() =~= s.active_xts.dom().remove(xt));
            assert(confirmation_in_order(xt, a.awaiting_inclusion()));
        }
        assert forall|x: Seq<char>| #[trigger] t.active_xts.contains_key(x) implies active_in_order(
            x,
            t.active_xts[x],
        ) by {
            assert(s.active_xts.contains_key(x));
        }
        assert forall|x: Seq<char>| #[trigger]
            t.pending_confirmations.contains_key(x) implies confirmation_in_order(
            x,
            t.pending_confirmations[x],
        ) by {
            if x != xt {
                assert(s.pending_confirmations.contains_key(x) == t.pending_confirmations.contains_key(x));
            }
        }
    }
}

/// A set of participants is no larger than the list of participants, and as large
/// only where it holds them all.
proof fn participants_bound(chains: Seq<ChainId>, set: Set<u64>)
    requires
        chains.no_duplicates(),
        set.finite(),
        forall|c: u64| #[trigger] set.contains(c) ==> chains.contains(ChainId(c)),
    ensures
        set.len() <= chains.len(),
        set.len() == chains.len() <==> forall|c: u64|
            chains.contains(ChainId(c)) ==> #[trigger] set.contains(c),
{
    let numbers = chains.map_values(|c: ChainId| c.0);
    assert(numbers.no_duplicates()) by {
        assert forall|i: int, j: int|
            0 <= i < numbers.len() && 0 <= j < numbers.len() && i != j implies numbers[i]
            != numbers[j] by {
            assert(chains[i].0 == numbers[i] && chains[j].0 == numbers[j]);
        }
    }
    let all = numbers.to_set();
    numbers.unique_seq_to_set();
    assert forall|c: u64| all.contains(c) <==> chains.contains(ChainId(c)) by {
        if all.contains(c) {
            let i = choose|i: int| 0 <= i < numbers.len() && numbers[i] == c;
            assert(chains[i] == ChainId(c));
        }
        if chains.contains(ChainId(c)) {
            let i = choose|i: int| 0 <= i < chains.len() && chains[i] == ChainId(c);
            assert(numbers[i] == c);
        }
    }
    assert(set.subset_of(all));
    vstd::set_lib::lemma_len_subset(set, all);
    if set.len() == chains.len() {
        vstd::set_lib::lemma_subset_equality(set, all);
        assert forall|c: u64| chains.contains(ChainId(c)) implies #[trigger] set.contains(c) by {
            assert(all.contains(c));
        }
    }
    if forall|c: u64| chains.contains(ChainId(c)) ==> #[trigger] set.contains(c) {
        assert(set =~= all) by {
            assert forall|c: u64| all.contains(c) implies set.contains(c) by {
                assert(chains.contains(ChainId(c)));
            }
        }
    }
}

/// A confirmation keeps the state valid.
pub proof fn confirming_keeps_valid(s: CoordinatorStateView, xt: Seq<char>, chain: u64)
    requires
        s.valid(),
    ensures
        s.confirmed(xt, chain).valid(),
{
    let t = s.confirmed(xt, chain);
    if s.confirmation_counts(xt, chain) {
        let p = s.pending_confirmations[xt];
        assert(confirmation_in_order(xt, p));
        participants_bound(p.chains, p.confirmed.insert(chain));
        assert forall|x: Seq<char>| #[trigger]
            t.pending_confirmations.contains_key(x) implies confirmation_in_order(
            x,
            t.pending_confirmations[x],
        ) by {
            assert(s.pending_confirmations.contains_key(x));
        }
    }
}

/// Reaping keeps the state valid.
pub proof fn reaping_keeps_valid(s: CoordinatorStateView, now: nat, timeout: nat)
    requires
        s.valid(),
    ensures
        s.reaped(now, timeout).valid(),
{
    let t = s.reaped(now, timeout);
    assert(t.active_xts.dom().subset_of(s.active_xts.dom()));
    vstd::set_lib::lemma_len_subset(t.active_xts.dom(), s.active_xts.dom());
    assert forall|xt: Seq<char>| #[trigger] t.active_xts.contains_key(xt) implies active_in_order(
        xt,
        t.active_xts[xt],
    ) by {
        assert(s.active_xts.contains_key(xt));
    }
}

/// A chain's new proof takes the place of its old one, and every other chain keeps
/// its own.
pub proof fn newest_proof_stands(
    s: CoordinatorStateView,
    chain: u64,
    p: ChainProofView,
    other: u64,
)
    requires
        other != chain,
    ensures
        s.proofs_with(chain, p).contains_key(chain),
        s.proofs_with(chain, p)[chain] == p,
        s.proofs_with(chain, p).contains_key(other) == s.pending_proofs.contains_key(other),
        s.pending_proofs.contains_key(other) ==> s.proofs_with(chain, p)[other]
            == s.pending_proofs[other],
{
}

/// Handing in a proof keeps the state valid.
pub proof fn proving_keeps_valid(s: CoordinatorStateView, chain: u64, p: ChainProofView, now: nat)
    requires
        s.valid(),
    ensures
        s.proved(chain, p, now).valid(),
{
    assert(s.proofs_with(chain, p).dom() =~= s.pending_proofs.dom().insert(chain));
    assert(s.proofs_with(chain, p).dom().contains(chain));
    assert(s.proofs_with(chain, p).len() > 0);
}

/// Dropping the collected proofs, returning to the newest settled superblock,
/// beginning a new period, submitting a superblock, and recording that it was
/// settled or that its submission failed each keep the state valid.
pub proof fn progress_keeps_valid(s: CoordinatorStateView, sb: u64, hash: Seq<u8>)
    requires
        s.valid(),
    ensures
        s.collection_dropped().valid(),
        s.rolled_back().valid(),
        s.next_period().valid(),
        s.handed_over().valid(),
        s.submission_failed(sb).valid(),
        sb < u64::MAX ==> s.settled(sb).valid() && s.initialized(sb, hash).valid(),
{
}

/// Returning to the newest settled superblock sets the numbering right, whatever
/// superblock was to be submitted next.
pub proof fn rolling_back_restores_numbering(s: CoordinatorStateView)
    requires
        s.tables_agree(),
        s.last_finalized_superblock_number < u64::MAX,
    ensures
        s.rolled_back().valid(),
        s.rolled_back().next_superblock_number == s.last_finalized_superblock_number + 1,
{
}

/// A vote commits a transaction exactly where it is a yes that counts and every
/// other participant has voted already, all of them yes. It aborts the transaction
/// exactly where it is a no that counts.
pub proof fn commit_takes_unanimity(s: CoordinatorStateView, xt: Seq<char>, chain: u64, vote: bool)
    requires
        s.valid(),
    ensures
        s.vote_decides(xt, chain, vote) == Some(true) <==> {
            &&& vote
            &&& s.vote_counts(xt, chain)
            &&& forall|c: u64|
                c != chain && s.active_xts[xt].chains.contains(ChainId(c))
                    ==> #[trigger] s.active_xts[xt].votes.contains_key(c)
                    && s.active_xts[xt].votes[c]
        },
        s.vote_decides(xt, chain, vote) == Some(false) <==> !vote && s.vote_counts(xt, chain),
{
    if s.vote_counts(xt, chain) {
        let a = s.active_xts[xt];
        assert(active_in_order(xt, a));
        let b = a.with_vote(chain, vote);
        assert(b.votes.dom() =~= a.votes.dom().insert(chain));
        participants_bound(b.chains, b.votes.dom());
        if vote {
            assert(all_yes(b.votes));
        }
        if b.votes.len() == b.chains.len() {
            assert forall|c: u64| c != chain && a.chains.contains(ChainId(c)) implies
                #[trigger] a.votes.contains_key(c) && a.votes[c] by {
                assert(b.votes.dom().contains(c));
            }
        }
        if forall|c: u64|
            c != chain && a.chains.contains(ChainId(c)) ==> #[trigger] a.votes.contains_key(c)
                && a.votes[c] {
            assert forall|c: u64| a.chains.contains(ChainId(c)) implies
                #[trigger] b.votes.dom().contains(c) by {
                if c != chain {
                    assert(a.votes.contains_key(c));
                }
            }
        }
    }
}

/// Once a vote has decided a transaction, no vote on it counts any more.
pub proof fn decided_once(s: CoordinatorStateView, xt: Seq<char>, chain: u64, vote: bool, c: u64)
    requires
        s.vote_decides(xt, chain, vote) is Some,
    ensures
        !s.voted(xt, chain, vote).vote_counts(xt, c),
        s.voted(xt, chain, vote).pending_confirmations.contains_key(xt),
{
}

/// A chain's second vote on a transaction changes nothing.
pub proof fn second_vote_is_ignored(
    s: CoordinatorStateView,
    xt: Seq<char>,
    chain: u64,
    vote: bool,
    again: bool,
)
    ensures
        s.voted(xt, chain, vote).voted(xt, chain, again) == s.voted(xt, chain, vote),
{
}

/// A vote of a chain that takes no part in a transaction changes nothing.
pub proof fn strangers_have_no_vote(s: CoordinatorStateView, xt: Seq<char>, chain: u64, vote: bool)
    requires
        !s.active_xts.contains_key(xt) || !s.active_xts[xt].chains.contains(ChainId(chain)),
    ensures
        s.voted(xt, chain, vote) == s,
        s.vote_decides(xt, chain, vote) is None,
{
}

/// The votes of two chains on a transaction lead to the same state in either order.
pub proof fn votes_commute(
    s: CoordinatorStateView,
    xt: Seq<char>,
    a: u64,
    vote_a: bool,
    b: u64,
    vote_b: bool,
)
    requires
        s.valid(),
        a != b,
    ensures
        s.voted(xt, a, vote_a).voted(xt, b, vote_b) == s.voted(xt, b, vote_b).voted(
            xt,
            a,
            vote_a,
        ),
{
    let ab = s.voted(xt, a, vote_a).voted(xt, b, vote_b);
    let ba = s.voted(xt, b, vote_b).voted(xt, a, vote_a);
    if s.vote_counts(xt, a) && s.vote_counts(xt, b) {
        let x = s.active_xts[xt];
        assert(active_in_order(xt, x));
        let xa = x.with_vote(a, vote_a);
        let xb = x.with_vote(b, vote_b);
        assert(xa.votes.dom() =~= x.votes.dom().insert(a));
        assert(xb.votes.dom() =~= x.votes.dom().insert(b));
        let both = x.votes.dom().insert(a).insert(b);
        assert(both =~= x.votes.dom().insert(b).insert(a));
        participants_bound(x.chains, both);
        // With both votes still out, neither alone can be the last.
        assert(xa.decision() is None && xb.decision() is None);
        let xab = xa.with_vote(b, vote_b);
        let xba = xb.with_vote(a, vote_a);
        assert(xab.votes =~= xba.votes);
        assert(xab == xba);
        assert(ab =~= ba);
    } else if s.vote_counts(xt, a) {
        assert(s.voted(xt, b, vote_b) == s);
        assert(ab =~= ba);
    } else if s.vote_counts(xt, b) {
        assert(s.voted(xt, a, vote_a) == s);
        assert(ab =~= ba);
    }
}

/// Votes on different transactions lead to the same state in either order.
pub proof fn transactions_do_not_interfere(
    s: CoordinatorStateView,
    x: Seq<char>,
    a: u64,
    vote_a: bool,
    y: Seq<char>,
    b: u64,
    vote_b: bool,
)
    requires
        x != y,
    ensures
        s.voted(x, a, vote_a).voted(y, b, vote_b) == s.voted(y, b, vote_b).voted(x, a, vote_a),
{
    assert(s.voted(x, a, vote_a).voted(y, b, vote_b) =~= s.voted(y, b, vote_b).voted(x, a, vote_a));
}

/// The state after each of `voters` has voted yes on `xt`, in order.
pub open spec fn all_voted_yes(s: CoordinatorStateView, xt: Seq<char>, voters: Seq<u64>) -> CoordinatorStateView
    decreases voters.len(),
{
    if voters.len() == 0 {
        s
    } else {
        all_voted_yes(s, xt, voters.drop_last()).voted(xt, voters.last(), true)
    }
}

/// While only some of the participants have voted, all yes, the transaction stays
/// undecided with exactly their votes.
proof fn yes_votes_accumulate(s: CoordinatorStateView, xt: Seq<char>, voters: Seq<u64>)
    requires
        s.valid(),
        s.active_xts.contains_key(xt),
        s.active_xts[xt].votes == Map::<u64, bool>::empty(),
        voters.no_duplicates(),
        voters.len() < s.active_xts[xt].chains.len(),
        forall|i: int|
            0 <= i < voters.len() ==> s.active_xts[xt].chains.contains(ChainId(#[trigger] voters[i])),
    ensures
        ({
            let t = all_voted_yes(s, xt, voters);
            &&& t.valid()
            &&& t == CoordinatorStateView { active_xts: t.active_xts, ..s }
            &&& t.active_xts.contains_key(xt)
            &&& t.active_xts[xt] == ActiveXtView {
                votes: t.active_xts[xt].votes,
                ..s.active_xts[xt]
            }
            &&& t.active_xts[xt].votes.dom() == voters.to_set()
            &&& t.active_xts.remove(xt) == s.active_xts.remove(xt)
        }),
    decreases voters.len(),
{
    if voters.len() == 0 {
        assert(s.active_xts[xt].votes.dom() =~= voters.to_set());
    } else {
        let init = voters.drop_last();
        let c = voters.last();
        assert forall|i: int| 0 <= i < init.len() implies s.active_xts[xt].chains.contains(
            ChainId(#[trigger] init[i]),
        ) by {
            assert(init[i] == voters[i]);
        }
        yes_votes_accumulate(s, xt, init);
        let before = all_voted_yes(s, xt, init);
        let a = before.active_xts[xt];
        assert(voters[voters.len() - 1] == c);
        assert(!init.to_set().contains(c)) by {
            if init.contains(c) {
                let j = choose|j: int| 0 <= j < init.len() && init[j] == c;
                assert(voters[j] == voters[voters.len() - 1]);
            }
        }
        assert(before.vote_counts(xt, c));
        let b = a.with_vote(c, true);
        assert(b.votes.dom() =~= a.votes.dom().insert(c));
        assert(b.votes.dom() =~= voters.to_set()) by {
            assert forall|x: u64| voters.to_set().contains(x) <==> b.votes.dom().contains(x) by {
                if voters.contains(x) && x != c {
                    let j = choose|j: int| 0 <= j < voters.len() && voters[j] == x;
                    assert(init[j] == x);
                }
                if init.contains(x) {
                    let j = choose|j: int| 0 <= j < init.len() && init[j] == x;
                    assert(voters[j] == x);
                }
            }
        }
        voters.unique_seq_to_set();
        assert(b.decision() is None);
        voting_keeps_valid(before, xt, c, true);
        let t = all_voted_yes(s, xt, voters);
        assert(t.active_xts.remove(xt) =~= s.active_xts.remove(xt)) by {
            assert forall|x: Seq<char>| x != xt implies t.active_xts.contains_key(x)
                == s.active_xts.contains_key(x) && t.active_xts[x] == s.active_xts[x] by {
                assert(before.active_xts.remove(xt).contains_key(x) == s.active_xts.remove(
                    xt,
                ).contains_key(x));
                assert(before.active_xts.remove(xt)[x] == s.active_xts.remove(xt)[x]);
            }
        }
    }
}

/// When every participant of a fresh transaction votes yes, in whatever order, the
/// last vote commits it: it is counted, leaves the undecided transactions and
/// awaits inclusion.
pub proof fn unanimous_vote_commits(s: CoordinatorStateView, xt: Seq<char>, voters: Seq<u64>)
    requires
        s.valid(),
        s.active_xts.contains_key(xt),
        s.active_xts[xt].votes == Map::<u64, bool>::empty(),
        voters.no_duplicates(),
        voters.len() == s.active_xts[xt].chains.len(),
        forall|i: int|
            0 <= i < voters.len() ==> s.active_xts[xt].chains.contains(ChainId(#[trigger] voters[i])),
    ensures
        all_voted_yes(s, xt, voters.drop_last()).vote_decides(xt, voters.last(), true) == Some(
            true,
        ),
        all_voted_yes(s, xt, voters) == (CoordinatorStateView {
            active_xts: s.active_xts.remove(xt),
            committed_xts: (s.committed_xts + 1) as u64,
            pending_confirmations: s.pending_confirmations.insert(
                xt,
                s.active_xts[xt].awaiting_inclusion(),
            ),
            ..s
        }),
{
    let init = voters.drop_last();
    let c = voters.last();
    assert(active_in_order(xt, s.active_xts[xt]));
    assert forall|i: int| 0 <= i < init.len() implies s.active_xts[xt].chains.contains(
        ChainId(#[trigger] init[i]),
    ) by {
        assert(init[i] == voters[i]);
    }
    yes_votes_accumulate(s, xt, init);
    let before = all_voted_yes(s, xt, init);
    let a = before.active_xts[xt];
    assert(voters[voters.len() - 1] == c);
    assert(!init.to_set().contains(c)) by {
        if init.contains(c) {
            let j = choose|j: int| 0 <= j < init.len() && init[j] == c;
            assert(voters[j] == voters[voters.len() - 1]);
        }
    }
    assert(before.vote_counts(xt, c));
    init.unique_seq_to_set();
    let b = a.with_vote(c, true);
    assert(b.votes.dom() =~= a.votes.dom().insert(c));
    assert(b.votes.len() == b.chains.len());
    assert(active_in_order(xt, a));
    assert(all_yes(b.votes));
    assert(all_voted_yes(s, xt, voters) =~= (CoordinatorStateView {
        active_xts: s.active_xts.remove(xt),
        committed_xts: (s.committed_xts + 1) as u64,
        pending_confirmations: s.pending_confirmations.insert(
            xt,
            s.active_xts[xt].awaiting_inclusion(),
        ),
        ..s
    }));
}

/// The instance named in the announcement of an outcome is the one that was started
/// under the transaction's identifier.
pub proof fn decision_names_the_instance(
    s: CoordinatorStateView,
    instance_id: Seq<u8>,
    chain: u64,
    vote: bool,
)
    requires
        s.valid(),
        s.vote_decides(hex_lower(instance_id), chain, vote) is Some,
    ensures
        s.active_xts[hex_lower(instance_id)].instance_id == instance_id,
{
    let xt = hex_lower(instance_id);
    assert(active_in_order(xt, s.active_xts[xt]));
    hex_lower_injective(s.active_xts[xt].instance_id, instance_id);
}

/// After the timed-out transactions were reaped, none is left, and reaping again
/// changes nothing.
pub proof fn reaping_leaves_none(s: CoordinatorStateView, now: nat, timeout: nat)
    ensures
        forall|xt: Seq<char>| !#[trigger] s.reaped(now, timeout).timed_out(xt, now, timeout),
        s.reaped(now, timeout).reaped(now, timeout) == s.reaped(now, timeout),
{
    assert(s.reaped(now, timeout).reaped(now, timeout) =~= s.reaped(now, timeout));
}

/// What has timed out stays timed out as time goes on.
pub proof fn timeouts_last(s: CoordinatorStateView, xt: Seq<char>, now: nat, later: nat, timeout: nat)
    requires
        s.timed_out(xt, now, timeout),
        now <= later,
    ensures
        s.timed_out(xt, later, timeout),
{
}

/// No vote counts on a transaction that was reaped, so it stays aborted.
pub proof fn reaped_stays_aborted(
    s: CoordinatorStateView,
    xt: Seq<char>,
    now: nat,
    timeout: nat,
    chain: u64,
)
    requires
        s.timed_out(xt, now, timeout),
    ensures
        !s.reaped(now, timeout).vote_counts(xt, chain),
{
}

/// A confirmation completes a transaction exactly where it counts and every other
/// participant has confirmed already.
pub proof fn inclusion_takes_all(s: CoordinatorStateView, xt: Seq<char>, chain: u64)
    requires
        s.valid(),
    ensures
        s.confirmation_completes(xt, chain) <==> {
            &&& s.confirmation_counts(xt, chain)
            &&& forall|c: u64|
                c != chain && s.pending_confirmations[xt].chains.contains(ChainId(c))
                    ==> #[trigger] s.pending_confirmations[xt].confirmed.contains(c)
        },
{
    if s.confirmation_counts(xt, chain) {
        let p = s.pending_confirmations[xt];
        assert(confirmation_in_order(xt, p));
        let all = p.confirmed.insert(chain);
        participants_bound(p.chains, all);
        if all.len() == p.chains.len() {
            assert forall|c: u64| c != chain && p.chains.contains(ChainId(c)) implies
                #[trigger] p.confirmed.contains(c) by {
                assert(all.contains(c));
            }
        }
        if forall|c: u64|
            c != chain && p.chains.contains(ChainId(c)) ==> #[trigger] p.confirmed.contains(c) {
            assert forall|c: u64| p.chains.contains(ChainId(c)) implies #[trigger] all.contains(
                c,
            ) by {
                if c != chain {
                    assert(p.confirmed.contains(c));
                }
            }
        }
    }
}

/// A transaction is completed at most once.
pub proof fn included_once(s: CoordinatorStateView, xt: Seq<char>, chain: u64, c: u64)
    requires
        s.confirmation_completes(xt, chain),
    ensures
        !s.confirmed(xt, chain).confirmation_counts(xt, c),
{
}

/// A chain's second confirmation of a transaction changes nothing.
pub proof fn second_confirmation_is_ignored(s: CoordinatorStateView, xt: Seq<char>, chain: u64)
    ensures
        s.confirmed(xt, chain).confirmed(xt, chain) == s.confirmed(xt, chain),
{
}

/// The confirmations of two chains lead to the same state in either order.
pub proof fn confirmations_commute(s: CoordinatorStateView, xt: Seq<char>, a: u64, b: u64)
    requires
        s.valid(),
        a != b,
    ensures
        s.confirmed(xt, a).confirmed(xt, b) == s.confirmed(xt, b).confirmed(xt, a),
{
    let ab = s.confirmed(xt, a).confirmed(xt, b);
    let ba = s.confirmed(xt, b).confirmed(xt, a);
    if s.confirmation_counts(xt, a) && s.confirmation_counts(xt, b) {
        let p = s.pending_confirmations[xt];
        assert(confirmation_in_order(xt, p));
        let both = p.confirmed.insert(a).insert(b);
        assert(both =~= p.confirmed.insert(b).insert(a));
        participants_bound(p.chains, both);
        assert(p.confirmed.insert(a).len() < p.chains.len());
        assert(p.confirmed.insert(b).len() < p.chains.len());
        assert(ab =~= ba);
    } else if s.confirmation_counts(xt, a) {
        assert(s.confirmed(xt, b) == s);
        assert(ab =~= ba);
    } else if s.confirmation_counts(xt, b) {
        assert(s.confirmed(xt, a) == s);
        assert(ab =~= ba);
    }
}

/// After a client has registered for a chain, each leads to the other, and the
/// chain that the client spoke for before is registered no longer.
pub proof fn registration_takes_hold(s: CoordinatorStateView, client: Seq<char>, chain: u64)
    ensures
        ({
            let t = s.registered(client, chain);
            &&& t.chain_to_client.contains_key(chain)
            &&& t.chain_to_client[chain] == client
            &&& t.client_to_chain.contains_key(client)
            &&& t.client_to_chain[client] == chain
            &&& s.client_to_chain.contains_key(client) && s.client_to_chain[client] != chain
                ==> !t.chain_to_client.contains_key(s.client_to_chain[client])
        }),
{
}

/// No client speaks for two chains.
pub proof fn one_chain_per_client(s: CoordinatorStateView, a: u64, b: u64)
    requires
        s.valid(),
        s.chain_to_client.contains_key(a),
        s.chain_to_client.contains_key(b),
        s.chain_to_client[a] == s.chain_to_client[b],
    ensures
        a == b,
{
}

/// Registering again for the same chain changes nothing more.
pub proof fn registration_is_idempotent(s: CoordinatorStateView, client: Seq<char>, chain: u64)
    ensures
        s.registered(client, chain).registered(client, chain) == s.registered(client, chain),
{
    assert(s.registered(client, chain).registered(client, chain) =~= s.registered(client, chain));
}

/// A complete collection holds a proof of every registered chain, whoever else has
/// handed one in.
pub proof fn complete_collection_covers_all(
    s: CoordinatorStateView,
    chain: u64,
    p: ChainProofView,
    registered: u64,
)
    requires
        s.proof_completes(chain, p),
        s.chain_to_client.contains_key(registered),
    ensures
        s.proofs_with(chain, p).contains_key(registered),
{
}

/// A proof completes the collection exactly if there are registered chains and each
/// of them but its own has handed one in before.
pub proof fn last_missing_chain_completes(s: CoordinatorStateView, chain: u64, p: ChainProofView)
    ensures
        s.proof_completes(chain, p) <==> s.chain_to_client.len() > 0 && forall|c: u64|
            #![trigger s.chain_to_client.contains_key(c)]
            s.chain_to_client.contains_key(c) && c != chain ==> s.pending_proofs.contains_key(c),
{
}

/// While a registered chain has handed in no proof, none of another chain completes
/// the collection.
pub proof fn missing_chain_is_waited_for(
    s: CoordinatorStateView,
    chain: u64,
    p: ChainProofView,
    missing: u64,
)
    requires
        s.chain_to_client.contains_key(missing),
        !s.pending_proofs.contains_key(missing),
        chain != missing,
    ensures
        !s.proof_completes(chain, p),
{
    assert(!s.proofs_with(chain, p).contains_key(missing));
}

/// The window for collecting proofs opens with the first proof, and no later proof
/// of an incomplete collection moves it.
pub proof fn window_opens_with_first_proof(
    s: CoordinatorStateView,
    chain: u64,
    p: ChainProofView,
    now: nat,
)
    requires
        s.valid(),
        !s.proof_completes(chain, p),
    ensures
        s.proved(chain, p, now).proof_collection_started == Some(
            if s.pending_proofs.len() == 0 {
                now
            } else {
                s.proof_collection_started->0
            },
        ),
{
}

/// After a complete collection was handed over, or an expired one dropped, nothing
/// is left that could expire.
pub proof fn handed_over_cannot_expire(
    s: CoordinatorStateView,
    chain: u64,
    p: ChainProofView,
    now: nat,
    later: nat,
    window: nat,
)
    ensures
        s.proof_completes(chain, p) ==> !s.proved(chain, p, now).collection_expired(later, window),
        !s.collection_dropped().rolled_back().collection_expired(later, window),
{
}

/// The last of two proofs of a chain counts, as if the first had not been handed in,
/// where the collection stays incomplete with each of them.
pub proof fn last_proof_counts(
    s: CoordinatorStateView,
    chain: u64,
    p: ChainProofView,
    q: ChainProofView,
    now: nat,
)
    requires
        s.valid(),
        !s.proof_completes(chain, p),
    ensures
        s.proved(chain, p, now).proofs_with(chain, q) == s.proofs_with(chain, q),
        s.proved(chain, p, now).proof_completes(chain, q) == s.proof_completes(chain, q),
{
    assert(s.proofs_with(chain, p).insert(chain, q) =~= s.proofs_with(chain, q));
}

/// What a settled superblock brings is counted as final once: the transactions
/// submitted with it move over, and settling it again moves nothing.
pub proof fn settled_transactions_count_once(s: CoordinatorStateView, sb: u64)
    requires
        s.valid(),
        s.next_superblock_number <= sb < u64::MAX,
    ensures
        s.settled(sb).current_period_finalized_xts == s.current_period_finalized_xts
            + s.submitted_xts,
        s.settled(sb).submitted_xts == 0,
        s.settled(sb).settled(sb) == s.settled(sb),
{
}

/// Submitting, failing to submit and settling a superblock lose no committed
/// transaction and count none twice.
pub proof fn transactions_move_on(s: CoordinatorStateView, sb: u64)
    requires
        s.valid(),
        sb < u64::MAX,
    ensures
        s.handed_over().counted() == s.counted(),
        s.submission_failed(sb).counted() == s.counted(),
        s.settled(sb).counted() == s.counted(),
{
}

/// A failed submission undoes the hand-over of the superblock that is still to be
/// settled, where no other submission is under way.
pub proof fn failure_undoes_hand_over(s: CoordinatorStateView)
    requires
        s.valid(),
        s.submitted_xts == 0,
    ensures
        s.handed_over().submission_failed(s.next_superblock_number) == s,
{
}

} // verus!
