//! Laws of whole runs of the two-phase commit protocol.

use vstd::prelude::*;

#[allow(unused_imports)]
use crate::coordinator_laws::{
    confirming_keeps_valid, initial_is_valid, progress_keeps_valid, proving_keeps_valid,
    reaping_keeps_valid, registering_keeps_valid, starting_keeps_valid, voting_keeps_valid,
};
#[allow(unused_imports)]
use crate::coordinator_model::{ChainProofView, CoordinatorStateView, MAX_ACTIVE_XTS};
#[allow(unused_imports)]
use crate::text::hex_lower;
#[allow(unused_imports)]
use crate::types::ChainId;

verus! {

/// Something that happens to a coordinator's state.
pub enum CoordinatorEvent {
    /// A client registers for a chain.
    Register {
        /// The client.
        client: Seq<char>,
        /// The chain.
        chain: u64,
    },
    /// An instance is started.
    Start {
        /// The instance's identifier.
        instance_id: Seq<u8>,
        /// The participating chains.
        chains: Seq<ChainId>,
        /// When the request came in.
        received_at: nat,
        /// When the instance is started.
        now: nat,
    },
    /// A chain votes on a transaction.
    Vote {
        /// The transaction.
        xt: Seq<char>,
        /// The chain.
        chain: u64,
        /// Its vote.
        vote: bool,
    },
    /// A chain confirms a transaction.
    Confirm {
        /// The transaction.
        xt: Seq<char>,
        /// The chain.
        chain: u64,
    },
    /// Timed-out transactions are reaped.
    Reap {
        /// The time.
        now: nat,
        /// How long a transaction may stay undecided.
        timeout: nat,
    },
    /// The collection of proofs is dropped and the state rolled back.
    DropCollection,
    /// A new period begins.
    NextPeriod,
    /// A chain hands in a proof.
    Prove {
        /// The chain.
        chain: u64,
        /// Its proof.
        proof_data: ChainProofView,
        /// The time.
        now: nat,
    },
    /// A superblock is submitted.
    Submit,
    /// The submission of a superblock has failed.
    FailSubmission {
        /// The superblock.
        superblock: u64,
    },
    /// A superblock is settled.
    Settle {
        /// The superblock.
        superblock: u64,
    },
    /// The settlement layer reports its newest superblock.
    Initialize {
        /// The superblock.
        superblock: u64,
        /// Its hash.
        hash: Seq<u8>,
    },
}

/// Whether an event can happen to `s`: a request is only taken on where there is
/// room for it, and no counter overflows.
pub open spec fn possible(s: CoordinatorStateView, e: CoordinatorEvent) -> bool {
    match e {
        CoordinatorEvent::Start { instance_id, chains, received_at, now } => {
            &&& s.active_xts.len() < MAX_ACTIVE_XTS
            &&& s.next_sequence_num < u64::MAX
            &&& chains.len() >= 2
            &&& chains.no_duplicates()
        },
        CoordinatorEvent::Vote { xt, chain, vote } => s.vote_decides(xt, chain, vote) == Some(true)
            ==> s.counted() < u64::MAX,
        CoordinatorEvent::NextPeriod => s.current_period_id < u64::MAX,
        CoordinatorEvent::Settle { superblock } => superblock < u64::MAX,
        CoordinatorEvent::Initialize { superblock, hash } => superblock < u64::MAX,
        _ => true,
    }
}

/// The state after an event.
pub open spec fn after(s: CoordinatorStateView, e: CoordinatorEvent) -> CoordinatorStateView {
    match e {
        CoordinatorEvent::Register { client, chain } => s.registered(client, chain),
        CoordinatorEvent::Start { instance_id, chains, received_at, now } => s.started(
            instance_id,
            chains,
            received_at,
            now,
        ),
        CoordinatorEvent::Vote { xt, chain, vote } => s.voted(xt, chain, vote),
        CoordinatorEvent::Confirm { xt, chain } => s.confirmed(xt, chain),
        CoordinatorEvent::Reap { now, timeout } => s.reaped(now, timeout),
        CoordinatorEvent::DropCollection => s.collection_dropped().rolled_back(),
        CoordinatorEvent::NextPeriod => s.next_period(),
        CoordinatorEvent::Prove { chain, proof_data, now } => s.proved(chain, proof_data, now),
        CoordinatorEvent::Submit => s.handed_over(),
        CoordinatorEvent::FailSubmission { superblock } => s.submission_failed(superblock),
        CoordinatorEvent::Settle { superblock } => s.settled(superblock),
        CoordinatorEvent::Initialize { superblock, hash } => s.initialized(superblock, hash),
    }
}

/// The state after a run of events.
pub open spec fn after_all(s: CoordinatorStateView, es: Seq<CoordinatorEvent>) -> CoordinatorStateView
    decreases es.len(),
{
    if es.len() == 0 {
        s
    } else {
        after(after_all(s, es.drop_last()), es.last())
    }
}

/// Whether each event of a run can happen when its turn comes.
pub open spec fn possible_run(s: CoordinatorStateView, es: Seq<CoordinatorEvent>) -> bool
    decreases es.len(),
{
    es.len() > 0 ==> {
        &&& possible_run(s, es.drop_last())
        &&& possible(after_all(s, es.drop_last()), es.last())
    }
}

/// Every event keeps the state valid.
pub proof fn events_keep_valid(s: CoordinatorStateView, e: CoordinatorEvent)
    requires
        s.valid(),
        possible(s, e),
    ensures
        after(s, e).valid(),
{
    match e {
        CoordinatorEvent::Register { client, chain } => registering_keeps_valid(s, client, chain),
        CoordinatorEvent::Start { instance_id, chains, received_at, now } => starting_keeps_valid(
            s,
            instance_id,
            chains,
            received_at,
            now,
        ),
        CoordinatorEvent::Vote { xt, chain, vote } => voting_keeps_valid(s, xt, chain, vote),
        CoordinatorEvent::Confirm { xt, chain } => confirming_keeps_valid(s, xt, chain),
        CoordinatorEvent::Reap { now, timeout } => reaping_keeps_valid(s, now, timeout),
        CoordinatorEvent::DropCollection => {
            progress_keeps_valid(s, 0, Seq::empty());
            progress_keeps_valid(s.collection_dropped(), 0, Seq::empty());
        },
        CoordinatorEvent::NextPeriod => progress_keeps_valid(s, 0, Seq::empty()),
        CoordinatorEvent::Prove { chain, proof_data, now } => proving_keeps_valid(
            s,
            chain,
            proof_data,
            now,
        ),
        CoordinatorEvent::Submit => progress_keeps_valid(s, 0, Seq::empty()),
        CoordinatorEvent::FailSubmission { superblock } => progress_keeps_valid(
            s,
            superblock,
            Seq::empty(),
        ),
        CoordinatorEvent::Settle { superblock } => progress_keeps_valid(
            s,
            superblock,
            Seq::empty(),
        ),
        CoordinatorEvent::Initialize { superblock, hash } => progress_keeps_valid(
            s,
            superblock,
            hash,
        ),
    }
}

/// Whatever happens from start-up on, the state is valid.
pub proof fn runs_stay_valid(es: Seq<CoordinatorEvent>)
    requires
        possible_run(CoordinatorStateView::initial(), es),
    ensures
        after_all(CoordinatorStateView::initial(), es).valid(),
    decreases es.len(),
{
    if es.len() == 0 {
        initial_is_valid();
    } else {
        runs_stay_valid(es.drop_last());
        events_keep_valid(after_all(CoordinatorStateView::initial(), es.drop_last()), es.last());
    }
}

/// Whether the place of the next instance in `s` comes before its place in `t`.
pub open spec fn place_before(s: CoordinatorStateView, t: CoordinatorStateView) -> bool {
    ||| s.current_period_id < t.current_period_id
    ||| s.current_period_id == t.current_period_id && s.next_sequence_num < t.next_sequence_num
}

/// Whether the next instance has the same place in `s` as in `t`.
pub open spec fn place_same(s: CoordinatorStateView, t: CoordinatorStateView) -> bool {
    s.current_period_id == t.current_period_id && s.next_sequence_num == t.next_sequence_num
}

/// The place of the next instance never moves back.
proof fn place_never_moves_back(s: CoordinatorStateView, es: Seq<CoordinatorEvent>)
    requires
        possible_run(s, es),
    ensures
        place_same(s, after_all(s, es)) || place_before(s, after_all(s, es)),
    decreases es.len(),
{
    if es.len() > 0 {
        place_never_moves_back(s, es.drop_last());
    }
}

/// No two instances of a run have the same place: a later one is in a later period,
/// or later in the same period.
pub proof fn instances_have_distinct_places(
    s: CoordinatorStateView,
    es: Seq<CoordinatorEvent>,
    i: int,
    j: int,
)
    requires
        possible_run(s, es),
        0 <= i < j < es.len(),
        es[i] is Start,
        es[j] is Start,
    ensures
        place_before(after_all(s, es.take(i)), after_all(s, es.take(j))),
    decreases es.len(),
{
    if j < es.len() - 1 {
        let init = es.drop_last();
        instances_have_distinct_places(s, init, i, j);
        assert(init.take(i) =~= es.take(i));
        assert(init.take(j) =~= es.take(j));
    } else {
        assert(es.take(j) =~= es.drop_last());
        place_after_start(s, es.drop_last(), i);
        assert(es.drop_last().take(i) =~= es.take(i));
    }
}

/// After an instance was started, the place of the next one is a later one for good.
proof fn place_after_start(s: CoordinatorStateView, es: Seq<CoordinatorEvent>, i: int)
    requires
        possible_run(s, es),
        0 <= i < es.len(),
        es[i] is Start,
    ensures
        place_before(after_all(s, es.take(i)), after_all(s, es)),
    decreases es.len(),
{
    let init = es.drop_last();
    if i < es.len() - 1 {
        place_after_start(s, init, i);
        assert(init.take(i) =~= es.take(i));
    } else {
        assert(es.take(i) =~= init);
    }
}

/// Sequence numbers start at one in every period and go up by one with each
/// instance.
pub proof fn sequence_numbers_are_consecutive(
    s: CoordinatorStateView,
    instance_id: Seq<u8>,
    chains: Seq<ChainId>,
    received_at: nat,
    now: nat,
)
    requires
        s.next_sequence_num < u64::MAX,
    ensures
        CoordinatorStateView::initial().next_sequence_num == 1,
        s.next_period().next_sequence_num == 1,
        s.started(instance_id, chains, received_at, now).next_sequence_num == s.next_sequence_num
            + 1,
{
}

/// Whether an event commits a transaction.
pub open spec fn commits(s: CoordinatorStateView, e: CoordinatorEvent) -> bool {
    e matches CoordinatorEvent::Vote { xt, chain, vote } && s.vote_decides(xt, chain, vote) == Some(
        true,
    )
}

/// How many transactions a run commits.
pub open spec fn commit_count(s: CoordinatorStateView, es: Seq<CoordinatorEvent>) -> nat
    decreases es.len(),
{
    if es.len() == 0 {
        0
    } else {
        commit_count(s, es.drop_last()) + (if commits(after_all(s, es.drop_last()), es.last()) {
            1nat
        } else {
            0nat
        })
    }
}

/// Until a new period or a rollback takes some out, the counts together go up by
/// one with each committed transaction, and by nothing else.
pub proof fn commits_are_counted(s: CoordinatorStateView, es: Seq<CoordinatorEvent>)
    requires
        s.valid(),
        possible_run(s, es),
        forall|i: int|
            0 <= i < es.len() ==> !((#[trigger] es[i]) is NextPeriod) && !(es[i] is DropCollection),
    ensures
        after_all(s, es).valid(),
        after_all(s, es).counted() == s.counted() + commit_count(s, es),
    decreases es.len(),
{
    if es.len() > 0 {
        let init = es.drop_last();
        assert forall|i: int| 0 <= i < init.len() implies !((#[trigger] init[i]) is NextPeriod)
            && !(init[i] is DropCollection) by {
            assert(init[i] == es[i]);
        }
        commits_are_counted(s, init);
        assert(es[es.len() - 1] == es.last());
        events_keep_valid(after_all(s, init), es.last());
    }
}

/// Without a word of the settlement layer no transaction becomes final, however many
/// are committed and submitted: the count never goes up, and stays at zero once it
/// is there.
pub proof fn only_settlement_finalizes(s: CoordinatorStateView, es: Seq<CoordinatorEvent>)
    requires
        forall|i: int|
            0 <= i < es.len() ==> !((#[trigger] es[i]) is Settle) && !(es[i] is Initialize),
    ensures
        after_all(s, es).current_period_finalized_xts <= s.current_period_finalized_xts,
    decreases es.len(),
{
    if es.len() > 0 {
        let init = es.drop_last();
        assert forall|i: int| 0 <= i < init.len() implies !((#[trigger] init[i]) is Settle) && !(
        init[i] is Initialize) by {
            assert(init[i] == es[i]);
        }
        only_settlement_finalizes(s, init);
        assert(es[es.len() - 1] == es.last());
    }
}

/// Whether an event starts the transaction `xt`.
pub open spec fn starts(e: CoordinatorEvent, xt: Seq<char>) -> bool {
    e matches CoordinatorEvent::Start { instance_id, chains, received_at, now } && hex_lower(
        instance_id,
    ) == xt
}

/// Whether an event brings about an outcome of the transaction `xt`, by a vote or
/// by timeout.
pub open spec fn decides(s: CoordinatorStateView, e: CoordinatorEvent, xt: Seq<char>) -> bool {
    match e {
        CoordinatorEvent::Vote { xt: voted, chain, vote } => voted == xt && s.vote_decides(
            xt,
            chain,
            vote,
        ) is Some,
        CoordinatorEvent::Reap { now, timeout } => s.timed_out(xt, now, timeout),
        _ => false,
    }
}

/// How often a run starts the transaction `xt`.
pub open spec fn start_count(es: Seq<CoordinatorEvent>, xt: Seq<char>) -> nat
    decreases es.len(),
{
    if es.len() == 0 {
        0
    } else {
        start_count(es.drop_last(), xt) + (if starts(es.last(), xt) {
            1nat
        } else {
            0nat
        })
    }
}

/// How often a run brings about an outcome of the transaction `xt`.
pub open spec fn outcome_count(
    s: CoordinatorStateView,
    es: Seq<CoordinatorEvent>,
    xt: Seq<char>,
) -> nat
    decreases es.len(),
{
    if es.len() == 0 {
        0
    } else {
        outcome_count(s, es.drop_last(), xt) + (if decides(
            after_all(s, es.drop_last()),
            es.last(),
            xt,
        ) {
            1nat
        } else {
            0nat
        })
    }
}

/// A transaction has at most one outcome for each time that it was started.
pub proof fn one_outcome_per_start(es: Seq<CoordinatorEvent>, xt: Seq<char>)
    ensures
        ({
            let end = after_all(CoordinatorStateView::initial(), es);
            outcome_count(CoordinatorStateView::initial(), es, xt) + (if end.active_xts.contains_key(
                xt,
            ) {
                1nat
            } else {
                0nat
            }) <= start_count(es, xt)
        }),
    decreases es.len(),
{
    if es.len() > 0 {
        one_outcome_per_start(es.drop_last(), xt);
    }
}

/// A transaction leaves the undecided ones only with an outcome.
pub proof fn undecided_until_outcome(s: CoordinatorStateView, e: CoordinatorEvent, xt: Seq<char>)
    requires
        s.active_xts.contains_key(xt),
    ensures
        after(s, e).active_xts.contains_key(xt) <==> !decides(s, e, xt),
{
}

/// Only what the settlement layer reports moves the newest settled superblock.
pub proof fn only_settlement_moves_settled(s: CoordinatorStateView, e: CoordinatorEvent)
    ensures
        after(s, e).last_finalized_superblock_number == (match e {
            CoordinatorEvent::Settle { superblock } => superblock,
            CoordinatorEvent::Initialize { superblock, hash } => superblock,
            _ => s.last_finalized_superblock_number,
        }),
{
}

} // verus!
