use publisher::coordinator::{extract_chains, proto_to_spec_xt, Coordinator};
use publisher::coordinator_model::MAX_ACTIVE_XTS;
use publisher::effects::{Effect, MetricUpdate};
use publisher::mailbox::{MailboxInfo, ProofData};
use publisher::messages::{Message, Payload, TransactionRequest, XtRequest};
use publisher::time::{Duration, Instant};
use publisher::types::{ChainId, InstanceId, PeriodId, SequenceNumber};

type Generate = fn(PeriodId, SequenceNumber, &publisher::types::XtRequest) -> InstanceId;

fn generate(
    period: PeriodId,
    sequence: SequenceNumber,
    _request: &publisher::types::XtRequest,
) -> InstanceId {
    let mut id = [0u8; 32];
    id[..8].copy_from_slice(&period.get().to_be_bytes());
    id[8..16].copy_from_slice(&sequence.get().to_be_bytes());
    InstanceId(id)
}

fn coordinator() -> Coordinator<Generate> {
    Coordinator::new(
        generate as Generate,
        Duration::from_secs(60),
        Duration::from_secs(7200),
    )
}

fn at(secs: u64) -> Instant {
    Instant::from_nanos(secs as u128 * 1_000_000_000)
}

fn request(chains: &[u64]) -> XtRequest {
    XtRequest {
        transaction_requests: chains
            .iter()
            .map(|c| TransactionRequest {
                chain_id: *c,
                transaction: vec![vec![*c as u8]],
            })
            .collect(),
    }
}

fn broadcasts(effects: &[Effect]) -> Vec<Message> {
    effects
        .iter()
        .filter_map(|e| match e {
            Effect::Broadcast(m) => Some(m.clone()),
            _ => None,
        })
        .collect()
}

fn start(c: &mut Coordinator<Generate>, chains: &[u64], secs: u64) -> Vec<u8> {
    let effects = c.handle_xt_request(request(chains), at(secs), at(secs));
    match &broadcasts(&effects)[0].payload {
        Some(Payload::StartInstance(s)) => s.instance_id.clone(),
        other => panic!("{:?}", other),
    }
}

fn proof_of(tag: u8) -> ProofData {
    ProofData {
        aggregation_outputs: vec![tag],
        compressed_proof: vec![tag],
        agg_vkey_hash: [0; 32],
        mailbox_info: MailboxInfo::default(),
    }
}

#[test]
fn chains_are_listed_once_in_order() {
    assert_eq!(
        extract_chains(&request(&[3, 1, 3, 2, 1])),
        vec![ChainId(3), ChainId(1), ChainId(2)]
    );
    assert!(extract_chains(&request(&[])).is_empty());
    let spec = proto_to_spec_xt(&request(&[4, 5]));
    assert_eq!(spec.transactions.len(), 2);
    assert_eq!(spec.transactions[1].chain_id, ChainId(5));
    assert_eq!(spec.transactions[1].transactions, vec![vec![5]]);
}

#[test]
fn a_new_coordinator_is_empty() {
    let c = coordinator();
    let s = c.stats();
    assert_eq!(s.registered_chains, 0);
    assert_eq!(s.active_2pc_transactions, 0);
    assert_eq!(s.pending_proof_superblocks, 0);
    assert_eq!(s.current_period_id, 0);
    assert_eq!(s.next_superblock_number, 1);
    assert_eq!(s.last_finalized_superblock, 0);
    assert_eq!(s.messages_processed, 0);
    assert_eq!(s.broadcasts_sent, 0);
    assert!(c.has_period_headroom());
    assert!(c.has_headroom());
    assert!(c.check_request_fits(&request(&[1, 2])));
    assert!(c.check_vote_fits(&[1], ChainId(1), true));
    assert_eq!(c.current_superblock_number(), 1);
}

#[test]
fn requests_must_span_two_chains() {
    let mut c = coordinator();
    assert!(c.handle_xt_request(request(&[]), at(0), at(0)).is_empty());
    assert!(c.handle_xt_request(request(&[1]), at(0), at(0)).is_empty());
    assert!(c.handle_xt_request(request(&[1, 1, 1]), at(0), at(0)).is_empty());
    assert_eq!(c.stats().active_2pc_transactions, 0);
    start(&mut c, &[1, 2], 0);
    assert_eq!(c.stats().active_2pc_transactions, 1);
}

#[test]
fn the_number_of_undecided_transactions_is_limited() {
    let mut c = coordinator();
    let mut ids = Vec::new();
    for _ in 0..MAX_ACTIVE_XTS {
        ids.push(start(&mut c, &[1, 2], 0));
    }
    assert!(c.handle_xt_request(request(&[1, 2]), at(0), at(0)).is_empty());
    assert_eq!(c.stats().active_2pc_transactions, MAX_ACTIVE_XTS);
    // A decision makes room.
    c.handle_vote(&ids[0], ChainId(1), false, at(1));
    assert!(!c.handle_xt_request(request(&[1, 2]), at(1), at(1)).is_empty());
}

#[test]
fn one_no_aborts() {
    let mut c = coordinator();
    let id = start(&mut c, &[1, 2, 3], 0);
    assert!(c.handle_vote(&id, ChainId(1), true, at(1)).is_empty());
    let effects = c.handle_vote(&id, ChainId(2), false, at(2));
    assert!(matches!(
        effects[0],
        Effect::Record(MetricUpdate::XtAborted)
    ));
    match &broadcasts(&effects)[0].payload {
        Some(Payload::Decided(d)) => assert!(!d.decision),
        other => panic!("{:?}", other),
    }
    // It is decided once.
    assert!(c.handle_vote(&id, ChainId(3), true, at(3)).is_empty());
    assert_eq!(c.stats().active_2pc_transactions, 0);
}

#[test]
fn unanimity_commits_in_any_order() {
    for order in [[1u64, 2, 3], [3, 2, 1], [2, 3, 1]] {
        let mut c = coordinator();
        let id = start(&mut c, &[1, 2, 3], 0);
        assert!(c.handle_vote(&id, ChainId(order[0]), true, at(1)).is_empty());
        assert!(c.handle_vote(&id, ChainId(order[1]), true, at(1)).is_empty());
        let effects = c.handle_vote(&id, ChainId(order[2]), true, at(1));
        assert!(matches!(
            effects[0],
            Effect::Record(MetricUpdate::XtCommitted)
        ));
    }
}

fn commit(c: &mut Coordinator<Generate>) {
    let id = start(c, &[1, 2], 0);
    c.handle_vote(&id, ChainId(1), true, at(0));
    c.handle_vote(&id, ChainId(2), true, at(0));
}

fn reported(c: &mut Coordinator<Generate>) -> u64 {
    match c.advance_period()[0] {
        Effect::Record(MetricUpdate::XtFinalisedPerPeriod(n)) => n,
        ref other => panic!("{:?}", other),
    }
}

fn settling_coordinator() -> Coordinator<Generate> {
    let mut c = coordinator().with_l1_submitter();
    c.register_chain("a", ChainId(1));
    c.register_chain("b", ChainId(2));
    c
}

fn submit(c: &mut Coordinator<Generate>) -> u64 {
    assert!(c.receive_proof(0, 1, proof_of(1), at(0)).is_empty());
    match c.receive_proof(0, 2, proof_of(2), at(0))[..] {
        [Effect::Submit {
            superblock_number, ..
        }] => superblock_number,
        ref other => panic!("{:?}", other),
    }
}

#[test]
fn a_new_period_is_announced() {
    let mut c = coordinator();
    let effects = c.advance_period();
    assert!(matches!(
        effects[0],
        Effect::Record(MetricUpdate::XtFinalisedPerPeriod(0))
    ));
    assert!(matches!(
        effects[1],
        Effect::Record(MetricUpdate::BroadcastSent)
    ));
    assert!(matches!(
        effects[2],
        Effect::Record(MetricUpdate::PeriodBroadcast)
    ));
    match &broadcasts(&effects)[0].payload {
        Some(Payload::StartPeriod(p)) => {
            assert_eq!(p.period_id, 1);
            assert_eq!(p.superblock_number, 1);
        }
        other => panic!("{:?}", other),
    }
}

#[test]
fn commits_without_settlement_are_not_reported_as_final() {
    let mut c = coordinator();
    for _ in 0..3 {
        commit(&mut c);
    }
    assert_eq!(reported(&mut c), 0);
    assert_eq!(reported(&mut c), 0);
}

#[test]
fn confirmed_commits_are_reported_with_the_next_period() {
    let mut c = settling_coordinator();
    for _ in 0..3 {
        commit(&mut c);
    }
    let id = start(&mut c, &[1, 2], 0);
    c.handle_vote(&id, ChainId(1), false, at(0));
    assert_eq!(submit(&mut c), 1);
    // Committed too late for the superblock that is under way.
    commit(&mut c);
    assert_eq!(reported(&mut c), 0);
    c.settlement_succeeded(1);
    assert_eq!(reported(&mut c), 3);
    assert_eq!(reported(&mut c), 0);
    // Settled a second time, it brings nothing.
    c.settlement_succeeded(1);
    assert_eq!(reported(&mut c), 0);
    assert_eq!(submit(&mut c), 2);
    c.settlement_succeeded(2);
    assert_eq!(reported(&mut c), 1);
}

#[test]
fn commits_of_a_failed_submission_go_with_the_next_one() {
    let mut c = settling_coordinator();
    commit(&mut c);
    let submitted = submit(&mut c);
    c.settlement_failed(submitted);
    assert_eq!(reported(&mut c), 0);
    commit(&mut c);
    assert_eq!(submit(&mut c), submitted);
    c.settlement_succeeded(submitted);
    // A failure that comes after the superblock was settled has no say.
    c.settlement_failed(submitted);
    assert_eq!(reported(&mut c), 2);
}

#[test]
fn sequence_numbers_restart_with_each_period() {
    let mut c = coordinator();
    let number = |c: &mut Coordinator<Generate>| {
        let effects = c.handle_xt_request(request(&[1, 2]), at(0), at(0));
        match &broadcasts(&effects)[0].payload {
            Some(Payload::StartInstance(s)) => (s.period_id, s.sequence_number),
            other => panic!("{:?}", other),
        }
    };
    assert_eq!(number(&mut c), (0, 1));
    assert_eq!(number(&mut c), (0, 2));
    c.advance_period();
    assert_eq!(number(&mut c), (1, 1));
}

#[test]
fn undecided_transactions_time_out() {
    let mut c = coordinator();
    let first = start(&mut c, &[1, 2], 0);
    let second = start(&mut c, &[1, 2], 30);
    assert!(c.reap_timed_out_xts(at(59)).is_empty());
    let effects = c.reap_timed_out_xts(at(60));
    assert_eq!(effects.len(), 3);
    assert!(matches!(
        effects[0],
        Effect::Record(MetricUpdate::XtAborted)
    ));
    match &broadcasts(&effects)[0].payload {
        Some(Payload::Decided(d)) => {
            assert_eq!(d.instance_id, first);
            assert!(!d.decision);
        }
        other => panic!("{:?}", other),
    }
    assert!(c.reap_timed_out_xts(at(60)).is_empty());
    assert!(c.handle_vote(&first, ChainId(1), false, at(60)).is_empty());
    assert_eq!(c.reap_timed_out_xts(at(1000)).len(), 3);
    assert!(c.handle_vote(&second, ChainId(1), true, at(1000)).is_empty());
    assert_eq!(c.stats().active_2pc_transactions, 0);
    // Two starts and two aborts were announced.
    assert_eq!(c.stats().broadcasts_sent, 4);
}

#[test]
fn a_client_speaks_for_one_chain() {
    let mut c = coordinator();
    c.register_chain("a", ChainId(1));
    c.register_chain("a", ChainId(2));
    assert!(!c.is_chain_registered(ChainId(1)));
    assert!(c.is_chain_registered(ChainId(2)));
    assert_eq!(c.chain_for_client("a"), Some(ChainId(2)));
    c.register_chain("b", ChainId(2));
    assert_eq!(c.stats().registered_chains, 1);
    assert_eq!(c.chain_for_client("b"), Some(ChainId(2)));
    assert_eq!(c.chain_for_client("c"), None);
}

#[test]
fn the_newest_proof_of_each_chain_is_submitted() {
    let mut c = coordinator().with_l1_submitter();
    c.register_chain("a", ChainId(1));
    c.register_chain("b", ChainId(2));
    assert!(c.receive_proof(5, 1, proof_of(1), at(0)).is_empty());
    assert!(c.receive_proof(6, 1, proof_of(2), at(0)).is_empty());
    assert_eq!(c.stats().pending_proof_superblocks, 1);
    let effects = c.receive_proof(5, 2, proof_of(3), at(0));
    match &effects[..] {
        [Effect::Submit {
            superblock_number,
            proofs,
        }] => {
            assert_eq!(*superblock_number, 1);
            assert_eq!(proofs.len(), 2);
            assert_eq!(proofs[&1], proof_of(2));
            assert_eq!(proofs[&2], proof_of(3));
        }
        other => panic!("{:?}", other),
    }
    c.settlement_succeeded(1);
    assert_eq!(c.current_superblock_number(), 2);
    assert_eq!(c.stats().last_finalized_superblock, 1);
}

#[test]
fn a_proof_of_an_unregistered_chain_stands_for_no_other() {
    let mut c = coordinator().with_l1_submitter();
    c.register_chain("a", ChainId(1));
    c.register_chain("b", ChainId(2));
    assert!(c.receive_proof(1, 1, proof_of(1), at(0)).is_empty());
    assert!(c.receive_proof(1, 99, proof_of(9), at(0)).is_empty());
    assert!(c.receive_proof(1, 98, proof_of(8), at(0)).is_empty());
    assert_eq!(c.stats().pending_proof_superblocks, 3);
    match &c.receive_proof(1, 2, proof_of(2), at(0))[..] {
        [Effect::Submit { proofs, .. }] => {
            assert_eq!(proofs[&1], proof_of(1));
            assert_eq!(proofs[&2], proof_of(2));
        }
        other => panic!("{:?}", other),
    }
    assert_eq!(c.stats().pending_proof_superblocks, 0);
}

#[test]
fn without_chains_or_settlement_nothing_is_submitted() {
    let mut c = coordinator().with_l1_submitter();
    assert!(c.receive_proof(1, 1, proof_of(1), at(0)).is_empty());
    assert_eq!(c.stats().pending_proof_superblocks, 1);
    let mut c = coordinator();
    c.register_chain("a", ChainId(1));
    assert!(c.receive_proof(1, 1, proof_of(1), at(0)).is_empty());
    assert_eq!(c.stats().pending_proof_superblocks, 0);
}

#[test]
fn proofs_with_disagreeing_mailboxes_are_dropped() {
    let mut c = coordinator().with_l1_submitter();
    c.register_chain("a", ChainId(1));
    c.register_chain("b", ChainId(2));
    let mut sender = proof_of(1);
    sender.mailbox_info.outbox_chains = vec![2];
    sender.mailbox_info.outbox_roots = vec![[1; 32]];
    let mut receiver = proof_of(2);
    receiver.mailbox_info.inbox_chains = vec![1];
    receiver.mailbox_info.inbox_roots = vec![[2; 32]];
    assert!(c.receive_proof(1, 1, sender.clone(), at(0)).is_empty());
    assert!(c.receive_proof(1, 2, receiver.clone(), at(0)).is_empty());
    assert_eq!(c.stats().pending_proof_superblocks, 0);
    receiver.mailbox_info.inbox_roots = vec![[1; 32]];
    assert!(c.receive_proof(1, 1, sender, at(0)).is_empty());
    assert_eq!(c.receive_proof(1, 2, receiver, at(0)).len(), 1);
}

#[test]
fn a_collection_that_lasts_too_long_is_rolled_back() {
    let mut c = coordinator();
    c.init_from_l1(Some((7, [9; 32])));
    c.register_chain("a", ChainId(1));
    c.register_chain("b", ChainId(2));
    assert!(c.reap_expired_proofs(at(100_000)).is_empty());
    c.receive_proof(1, 1, proof_of(1), at(10));
    // A later proof does not extend the window.
    c.receive_proof(1, 1, proof_of(2), at(7000));
    assert!(c.reap_expired_proofs(at(7209)).is_empty());
    let effects = c.reap_expired_proofs(at(7210));
    assert_eq!(effects.len(), 2);
    match &broadcasts(&effects)[0].payload {
        Some(Payload::Rollback(r)) => {
            assert_eq!(r.period_id, 0);
            assert_eq!(r.last_finalized_superblock_number, 7);
            assert_eq!(r.last_finalized_superblock_hash, vec![9; 32]);
        }
        other => panic!("{:?}", other),
    }
    assert_eq!(c.stats().pending_proof_superblocks, 0);
    assert_eq!(c.current_superblock_number(), 8);
    assert!(c.reap_expired_proofs(at(100_000)).is_empty());
}

#[test]
fn numbering_goes_on_after_a_restart() {
    let mut c = coordinator();
    c.init_from_l1(None);
    assert_eq!(c.current_superblock_number(), 1);
    c.init_from_l1(Some((41, [0; 32])));
    assert_eq!(c.current_superblock_number(), 42);
    match &broadcasts(&c.advance_period())[0].payload {
        Some(Payload::StartPeriod(p)) => assert_eq!(p.superblock_number, 42),
        other => panic!("{:?}", other),
    }
}

#[test]
fn votes_on_unknown_transactions_are_ignored() {
    let mut c = coordinator();
    assert!(c.handle_vote(&[1, 2, 3], ChainId(1), true, at(0)).is_empty());
    assert!(c.handle_vote(&[], ChainId(1), false, at(0)).is_empty());
    assert!(c.handle_confirmed(&[1], ChainId(1), at(0)).is_empty());
}

#[test]
fn confirmations_may_come_in_any_order() {
    for order in [[1u64, 2, 3], [3, 1, 2]] {
        let mut c = coordinator();
        let id = start(&mut c, &[1, 2, 3], 5);
        // An abort awaits confirmation as a commit does.
        c.handle_vote(&id, ChainId(2), false, at(6));
        assert!(c.handle_confirmed(&id, ChainId(order[0]), at(7)).is_empty());
        assert!(c.handle_confirmed(&id, ChainId(9), at(7)).is_empty());
        assert!(c.handle_confirmed(&id, ChainId(order[1]), at(7)).is_empty());
        match &c.handle_confirmed(&id, ChainId(order[2]), at(8))[..] {
            [Effect::Record(MetricUpdate::BlockInclusionLatency(d))] => {
                assert_eq!(*d, Duration::from_secs(3));
            }
            other => panic!("{:?}", other),
        }
        assert!(c.handle_confirmed(&id, ChainId(order[2]), at(9)).is_empty());
    }
}

#[test]
fn registering_twice_is_registering_once() {
    let mut c = coordinator();
    c.register_chain("a", ChainId(1));
    c.register_chain("a", ChainId(1));
    assert_eq!(c.stats().registered_chains, 1);
    assert!(c.is_chain_registered(ChainId(1)));
}

#[test]
fn transactions_do_not_interfere() {
    let mut c = coordinator();
    let first = start(&mut c, &[1, 2], 0);
    let second = start(&mut c, &[1, 2], 0);
    assert_ne!(first, second);
    assert!(c.handle_vote(&first, ChainId(1), true, at(1)).is_empty());
    assert!(c.handle_vote(&second, ChainId(2), true, at(1)).is_empty());
    assert!(matches!(
        c.handle_vote(&second, ChainId(1), false, at(1))[0],
        Effect::Record(MetricUpdate::XtAborted)
    ));
    assert!(matches!(
        c.handle_vote(&first, ChainId(2), true, at(1))[0],
        Effect::Record(MetricUpdate::XtCommitted)
    ));
}

#[test]
fn a_collection_that_was_handed_over_cannot_expire() {
    let mut c = coordinator().with_l1_submitter();
    c.register_chain("a", ChainId(1));
    assert_eq!(c.receive_proof(1, 1, proof_of(1), at(0)).len(), 1);
    assert!(c.reap_expired_proofs(at(1_000_000)).is_empty());
}

#[test]
fn a_rollback_resets_the_count_of_commits() {
    let mut c = settling_coordinator();
    commit(&mut c);
    c.receive_proof(1, 1, proof_of(1), at(0));
    assert_eq!(c.reap_expired_proofs(at(7200)).len(), 2);
    let submitted = submit(&mut c);
    c.settlement_succeeded(submitted);
    assert_eq!(reported(&mut c), 0);
    // What is under way at the settlement layer is not undone by a rollback.
    commit(&mut c);
    let submitted = submit(&mut c);
    c.receive_proof(1, 1, proof_of(1), at(0));
    assert_eq!(c.reap_expired_proofs(at(7200)).len(), 2);
    c.settlement_succeeded(submitted);
    assert_eq!(reported(&mut c), 1);
}
