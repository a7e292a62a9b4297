use std::collections::HashSet;
use std::sync::{Arc, Mutex};

use publisher::sbcp::{
    Conclusion, L1Publisher, ProofReceipt, Publisher, PublisherError, PublisherMessenger,
    PublisherProver, PublisherState, Refusal,
};
use publisher::types::{
    ChainId, InstanceId, PeriodId, SequenceNumber, SuperblockHash, SuperblockNumber,
    TransactionRequest, XtRequest,
};

#[derive(Debug, Default)]
struct FakeMessenger {
    start_periods: Mutex<Vec<(PeriodId, SuperblockNumber)>>,
    rollbacks: Mutex<Vec<(PeriodId, SuperblockNumber, SuperblockHash)>>,
}

struct Messenger(Arc<FakeMessenger>);

impl PublisherMessenger for Messenger {
    fn broadcast_start_period(&self, p: PeriodId, t: SuperblockNumber) {
        self.0.start_periods.lock().unwrap().push((p, t));
    }
    fn broadcast_rollback(&self, p: PeriodId, s: SuperblockNumber, h: SuperblockHash) {
        self.0.rollbacks.lock().unwrap().push((p, s, h));
    }
}

type ProverCall = (SuperblockNumber, SuperblockHash, Vec<Vec<u8>>);

#[derive(Debug, Default)]
struct FakeProver {
    calls: Mutex<Vec<ProverCall>>,
    next_proof: Mutex<Vec<u8>>,
    err: Mutex<Option<String>>,
}

struct Prover(Arc<FakeProver>);

impl PublisherProver for Prover {
    fn request_superblock_proof(
        &self,
        sb: SuperblockNumber,
        hash: SuperblockHash,
        proofs: Vec<Vec<u8>>,
    ) -> Result<Vec<u8>, String> {
        self.0.calls.lock().unwrap().push((sb, hash, proofs));
        if let Some(ref e) = *self.0.err.lock().unwrap() {
            return Err(e.clone());
        }
        Ok(self.0.next_proof.lock().unwrap().clone())
    }
}

#[derive(Debug, Default)]
struct FakeL1 {
    published: Mutex<Vec<(SuperblockNumber, Vec<u8>)>>,
}

struct L1(Arc<FakeL1>);

impl L1Publisher for L1 {
    fn publish_proof(&self, sb: SuperblockNumber, proof: Vec<u8>) {
        self.0.published.lock().unwrap().push((sb, proof));
    }
}

fn generate(period: PeriodId, sequence: SequenceNumber, _request: &XtRequest) -> InstanceId {
    let mut id = [0u8; 32];
    id[..8].copy_from_slice(&period.get().to_be_bytes());
    id[8..16].copy_from_slice(&sequence.get().to_be_bytes());
    InstanceId(id)
}

type Generate = fn(PeriodId, SequenceNumber, &XtRequest) -> InstanceId;

fn chain_req(chain: u64, txs: &[&[u8]]) -> TransactionRequest {
    TransactionRequest {
        chain_id: ChainId(chain),
        transactions: txs.iter().map(|t| t.to_vec()).collect(),
    }
}

fn make_xt_request(entries: Vec<TransactionRequest>) -> XtRequest {
    XtRequest {
        transactions: entries,
    }
}

fn make_chain_set(ids: &[u64]) -> HashSet<u64> {
    ids.iter().copied().collect()
}

fn default_chain_set() -> HashSet<u64> {
    make_chain_set(&[1, 2, 3, 4, 5, 6, 7, 8, 9, 10])
}

type TestPublisher = Publisher<Prover, Messenger, L1, Generate>;

fn new_publisher_for_test(
    period: u64,
    target: u64,
    finalized: u64,
    hash: SuperblockHash,
    window: u64,
    chains: HashSet<u64>,
) -> (
    TestPublisher,
    Arc<FakeMessenger>,
    Arc<FakeProver>,
    Arc<FakeL1>,
) {
    let m = Arc::new(FakeMessenger::default());
    let p = Arc::new(FakeProver::default());
    let l1 = Arc::new(FakeL1::default());
    let pub_inst = match Publisher::new(
        Prover(Arc::clone(&p)),
        Messenger(Arc::clone(&m)),
        L1(Arc::clone(&l1)),
        generate as Generate,
        PeriodId(period),
        SuperblockNumber(target),
        SuperblockNumber(finalized),
        hash,
        window,
        chains,
    ) {
        Ok(pub_inst) => pub_inst,
        Err(e) => panic!("{}", e.message()),
    };
    (pub_inst, m, p, l1)
}

#[test]
fn rejects_target_lower_than_finalized() {
    let result = Publisher::new(
        Prover(Arc::new(FakeProver::default())),
        Messenger(Arc::new(FakeMessenger::default())),
        L1(Arc::new(FakeL1::default())),
        generate as Generate,
        PeriodId(3),
        SuperblockNumber(4),
        SuperblockNumber(5),
        SuperblockHash([1; 32]),
        0,
        default_chain_set(),
    );
    assert!(result.is_err());
    assert!(matches!(
        result.err(),
        Some(PublisherError::InvalidInitialState)
    ));
}

#[test]
fn start_period_respects_explicit_target() {
    let (mut pub_inst, m, _, _) =
        new_publisher_for_test(4, 10, 7, SuperblockHash([5; 32]), 0, default_chain_set());

    pub_inst.start_period().unwrap();
    let starts = m.start_periods.lock().unwrap();
    assert_eq!(starts.len(), 1);
    assert_eq!(starts[0].0, PeriodId(5));
    assert_eq!(starts[0].1, SuperblockNumber(11));
    drop(starts);

    assert_eq!(pub_inst.target_superblock_number(), SuperblockNumber(11));
}

#[test]
fn start_period_rejects_initial_target_past_window() {
    let (mut pub_inst, m, _, _) =
        new_publisher_for_test(2, 12, 5, SuperblockHash([3; 32]), 1, default_chain_set());

    let err = pub_inst.start_period().unwrap_err();
    assert!(matches!(err, PublisherError::CannotStartPeriod { .. }));
    assert!(m.start_periods.lock().unwrap().is_empty());
    assert_eq!(
        err.message(),
        "can not start period: target superblock is 12, expected 6"
    );
}

#[test]
fn start_period_basic_broadcast_and_reset() {
    let (mut pub_inst, m, _, _) =
        new_publisher_for_test(9, 7, 7, SuperblockHash([9; 32]), 0, default_chain_set());

    pub_inst.start_period().unwrap();
    let starts = m.start_periods.lock().unwrap();
    assert_eq!(starts.len(), 1);
    assert_eq!(starts[0].0, PeriodId(10));
    assert_eq!(starts[0].1, SuperblockNumber(8));
}

#[test]
fn start_period_error_when_target_exceeds_proof_window() {
    let (mut pub_inst, m, _, _) =
        new_publisher_for_test(5, 7, 7, SuperblockHash([1; 32]), 1, default_chain_set());

    pub_inst.start_period().unwrap();
    pub_inst.start_period().unwrap();

    let err = pub_inst.start_period().unwrap_err();
    assert!(matches!(err, PublisherError::CannotStartPeriod { .. }));
    assert_eq!(m.start_periods.lock().unwrap().len(), 2);
}

#[test]
fn start_period_no_window_constraint_when_disabled() {
    let (mut pub_inst, m, _, _) =
        new_publisher_for_test(5, 7, 7, SuperblockHash([1; 32]), 0, default_chain_set());

    for _ in 0..3 {
        pub_inst.start_period().unwrap();
    }

    assert_eq!(m.start_periods.lock().unwrap().len(), 3);
}

#[test]
fn start_instance_disjoint_sets_allowed() {
    let (mut pub_inst, _, _, _) =
        new_publisher_for_test(5, 5, 5, SuperblockHash([1; 32]), 0, default_chain_set());

    let req1 = make_xt_request(vec![chain_req(1, &[b"a"]), chain_req(2, &[b"b"])]);
    let inst1 = pub_inst.start_instance(req1).unwrap();
    let chains1 = inst1.chains();
    assert_eq!(chains1.len(), 2);

    // Disjoint {3,4} should be allowed
    let req2 = make_xt_request(vec![chain_req(3, &[b"c"]), chain_req(4, &[b"d"])]);
    let inst2 = pub_inst.start_instance(req2).unwrap();
    let chains2 = inst2.chains();
    assert_eq!(chains2.len(), 2);
    assert!(chains2.contains(&ChainId(3)));
    assert!(chains2.contains(&ChainId(4)));
}

#[test]
fn start_instance_overlapping_sets_allowed() {
    let (mut pub_inst, _, _, _) =
        new_publisher_for_test(5, 5, 5, SuperblockHash([1; 32]), 0, default_chain_set());

    let inst1 = pub_inst
        .start_instance(make_xt_request(vec![
            chain_req(1, &[b"a"]),
            chain_req(2, &[b"b"]),
        ]))
        .unwrap();

    // Overlapping {2,3} starts concurrently instead of being rejected.
    let inst2 = pub_inst
        .start_instance(make_xt_request(vec![
            chain_req(2, &[b"x"]),
            chain_req(3, &[b"y"]),
        ]))
        .unwrap();

    assert_ne!(inst1.id, inst2.id);
    assert!(inst2.sequence_number > inst1.sequence_number);
    assert_eq!(inst1.period_id, inst2.period_id);
}

#[test]
fn start_instance_participant_dedup() {
    let (mut pub_inst, _, _, _) =
        new_publisher_for_test(2, 2, 2, SuperblockHash([1; 32]), 0, default_chain_set());

    let inst = pub_inst
        .start_instance(make_xt_request(vec![
            chain_req(7, &[b"a", b"b"]),
            chain_req(8, &[b"c"]),
        ]))
        .unwrap();
    let chains = inst.chains();
    assert_eq!(chains.len(), 2);
    assert!(chains.contains(&ChainId(7)));
    assert!(chains.contains(&ChainId(8)));
}

#[test]
fn sequence_monotonic_and_resets_per_period() {
    let (mut pub_inst, m, _, _) =
        new_publisher_for_test(10, 9, 9, SuperblockHash([1; 32]), 0, default_chain_set());

    let i1 = pub_inst
        .start_instance(make_xt_request(vec![
            chain_req(1, &[b"a1"]),
            chain_req(2, &[b"a2"]),
        ]))
        .unwrap();
    let i2 = pub_inst
        .start_instance(make_xt_request(vec![
            chain_req(3, &[b"b1"]),
            chain_req(4, &[b"b2"]),
        ]))
        .unwrap();

    assert_eq!(i1.sequence_number, SequenceNumber(1));
    assert_eq!(i2.sequence_number, SequenceNumber(2));

    // New period resets sequence counter
    pub_inst.start_period().unwrap();
    assert_eq!(m.start_periods.lock().unwrap().len(), 1);

    let i3 = pub_inst
        .start_instance(make_xt_request(vec![
            chain_req(5, &[b"c1"]),
            chain_req(6, &[b"c2"]),
        ]))
        .unwrap();
    assert_eq!(i3.sequence_number, SequenceNumber(1));
}

#[test]
fn start_instance_populates_instance_fields() {
    let (mut pub_inst, _, _, _) =
        new_publisher_for_test(1, 1, 1, SuperblockHash([1; 32]), 0, default_chain_set());
    let req = make_xt_request(vec![chain_req(1, &[b"x"]), chain_req(2, &[b"y"])]);

    let inst = pub_inst.start_instance(req.clone()).unwrap();
    assert_eq!(inst.period_id, PeriodId(1));
    assert_eq!(inst.sequence_number, SequenceNumber(1));
    assert_eq!(inst.xt_request, req);
    assert_eq!(inst.id, generate(PeriodId(1), SequenceNumber(1), &req));
}

#[test]
fn advance_settled_state_monotonic() {
    let (mut pub_inst, _, _, _) =
        new_publisher_for_test(1, 1, 1, SuperblockHash([1; 32]), 0, default_chain_set());

    pub_inst
        .advance_settled_state(SuperblockNumber(2), SuperblockHash([9; 32]))
        .unwrap();

    let err = pub_inst
        .advance_settled_state(SuperblockNumber(2), SuperblockHash([8; 32]))
        .unwrap_err();
    assert!(matches!(err, PublisherError::OldSettledState));
    assert_eq!(err.message(), "can not advance to older settled state");
}

#[test]
fn proof_timeout_rolls_back_and_resets_target() {
    let finalized = SuperblockNumber(5);
    let (mut pub_inst, m, _, _) = new_publisher_for_test(
        3,
        finalized.get(),
        finalized.get(),
        SuperblockHash([7; 32]),
        0,
        default_chain_set(),
    );

    pub_inst
        .start_instance(make_xt_request(vec![
            chain_req(1, &[b"a"]),
            chain_req(2, &[b"b"]),
        ]))
        .unwrap();

    pub_inst.proof_timeout();

    let rollbacks = m.rollbacks.lock().unwrap();
    assert_eq!(rollbacks.len(), 1);
    assert_eq!(rollbacks[0].0, PeriodId(3));
    assert_eq!(rollbacks[0].1, finalized);
    assert_eq!(rollbacks[0].2, SuperblockHash([7; 32]));
    drop(rollbacks);

    assert_eq!(
        pub_inst.target_superblock_number(),
        SuperblockNumber(finalized.get() + 1)
    );
}

#[test]
fn start_instance_invalid_requests() {
    let (mut pub_inst, _, _, _) =
        new_publisher_for_test(1, 1, 1, SuperblockHash([1; 32]), 0, default_chain_set());

    // Empty request
    let err = pub_inst.start_instance(XtRequest::default()).unwrap_err();
    assert!(matches!(err, PublisherError::InvalidRequest));

    // Single-transaction request
    let err = pub_inst
        .start_instance(make_xt_request(vec![chain_req(1, &[b"only"])]))
        .unwrap_err();
    assert!(matches!(err, PublisherError::InvalidRequest));
    assert_eq!(err.message(), "invalid request");
}

#[test]
fn receive_proof_aggregates_and_publishes() {
    let chains = make_chain_set(&[1, 2]);
    let (mut pub_inst, _, prover, l1) =
        new_publisher_for_test(10, 5, 5, SuperblockHash([1; 32]), 0, chains);
    *prover.next_proof.lock().unwrap() = b"network-proof".to_vec();
    pub_inst.start_period().unwrap();
    pub_inst.start_period().unwrap();

    pub_inst.receive_proof(
        PeriodId(11),
        SuperblockNumber(6),
        b"proof-1".to_vec(),
        ChainId(1),
    );
    assert!(prover.calls.lock().unwrap().is_empty());
    assert!(l1.published.lock().unwrap().is_empty());

    pub_inst.receive_proof(
        PeriodId(11),
        SuperblockNumber(6),
        b"proof-2".to_vec(),
        ChainId(2),
    );
    let calls = prover.calls.lock().unwrap();
    assert_eq!(calls.len(), 1);
    assert_eq!(calls[0].0, SuperblockNumber(6));
    assert_eq!(calls[0].1, SuperblockHash([1; 32]));
    assert_eq!(calls[0].2.len(), 2);
    drop(calls);

    let published = l1.published.lock().unwrap();
    assert_eq!(published.len(), 1);
    assert_eq!(published[0].0, SuperblockNumber(6));
    assert_eq!(published[0].1, b"network-proof".to_vec());
    drop(published);

    // Proofs map should be cleared
    assert!(pub_inst.proofs_for(SuperblockNumber(6)).is_none());
}

#[test]
fn receive_proof_prover_error_triggers_rollback() {
    let chains = make_chain_set(&[1, 2]);
    let (mut pub_inst, m, prover, l1) =
        new_publisher_for_test(10, 5, 5, SuperblockHash([9; 32]), 0, chains);
    *prover.err.lock().unwrap() = Some("boom".into());
    pub_inst.start_period().unwrap();
    pub_inst.start_period().unwrap();

    pub_inst.receive_proof(
        PeriodId(11),
        SuperblockNumber(6),
        b"proof-1".to_vec(),
        ChainId(1),
    );
    pub_inst.receive_proof(
        PeriodId(11),
        SuperblockNumber(6),
        b"proof-2".to_vec(),
        ChainId(2),
    );

    assert!(l1.published.lock().unwrap().is_empty());
    let rollbacks = m.rollbacks.lock().unwrap();
    assert_eq!(rollbacks.len(), 1);
    assert_eq!(rollbacks[0].1, SuperblockNumber(5));
    assert_eq!(rollbacks[0].2, SuperblockHash([9; 32]));
}

#[test]
fn receive_proof_ignores_non_terminated_superblock() {
    let chains = make_chain_set(&[1, 2]);
    let (mut pub_inst, _, prover, l1) =
        new_publisher_for_test(5, 4, 4, SuperblockHash([3; 32]), 0, chains);
    pub_inst.start_period().unwrap();

    pub_inst.receive_proof(
        PeriodId(6),
        SuperblockNumber(5),
        b"proof".to_vec(),
        ChainId(1),
    );

    assert!(prover.calls.lock().unwrap().is_empty());
    assert!(l1.published.lock().unwrap().is_empty());
    assert!(pub_inst.proofs_for(SuperblockNumber(5)).is_none());
}

#[test]
fn receive_proof_refuses_old_wrong_and_repeated_proofs() {
    let chains = make_chain_set(&[1, 2]);
    let (mut pub_inst, _, prover, _) =
        new_publisher_for_test(10, 5, 5, SuperblockHash([1; 32]), 0, chains);
    for _ in 0..3 {
        pub_inst.start_period().unwrap();
    }
    // A settled superblock, one that is not next, and the wrong period.
    pub_inst.receive_proof(PeriodId(10), SuperblockNumber(5), vec![1], ChainId(1));
    pub_inst.receive_proof(PeriodId(12), SuperblockNumber(7), vec![1], ChainId(1));
    pub_inst.receive_proof(PeriodId(12), SuperblockNumber(6), vec![1], ChainId(1));
    assert!(pub_inst.proofs_for(SuperblockNumber(6)).is_none());
    assert!(pub_inst.proofs_for(SuperblockNumber(7)).is_none());
    // The first proof of a chain stands.
    pub_inst.receive_proof(PeriodId(11), SuperblockNumber(6), vec![1], ChainId(1));
    pub_inst.receive_proof(PeriodId(11), SuperblockNumber(6), vec![2], ChainId(1));
    let proofs = pub_inst.proofs_for(SuperblockNumber(6)).unwrap();
    assert_eq!(proofs.len(), 1);
    assert_eq!(proofs[&1], vec![1]);
    assert!(prover.calls.lock().unwrap().is_empty());
}

#[test]
fn rollback_restarts_numbering_and_drops_proofs() {
    let chains = make_chain_set(&[1, 2]);
    let (mut pub_inst, _, _, _) =
        new_publisher_for_test(10, 5, 5, SuperblockHash([1; 32]), 0, chains);
    pub_inst.start_period().unwrap();
    pub_inst.start_period().unwrap();
    pub_inst.receive_proof(PeriodId(11), SuperblockNumber(6), vec![1], ChainId(1));
    assert!(pub_inst.proofs_for(SuperblockNumber(6)).is_some());
    pub_inst.proof_timeout();
    assert!(pub_inst.proofs_for(SuperblockNumber(6)).is_none());
    assert_eq!(pub_inst.target_superblock_number(), SuperblockNumber(6));
    // Rolling back again changes nothing more.
    pub_inst.proof_timeout();
    assert_eq!(pub_inst.target_superblock_number(), SuperblockNumber(6));
}

#[test]
fn instance_identifiers_are_written_in_hexadecimal() {
    let mut bytes = [0u8; 32];
    bytes[0] = 0xab;
    bytes[31] = 0x0f;
    let text = InstanceId(bytes).to_string();
    assert_eq!(text.len(), 64);
    assert!(text.starts_with("ab00"));
    assert!(text.ends_with("000f"));
}

#[test]
fn the_provers_answer_decides_what_follows() {
    let fresh = || {
        let mut state = PublisherState::new(
            PeriodId(10),
            SuperblockNumber(5),
            SuperblockNumber(5),
            SuperblockHash([4; 32]),
            0,
            make_chain_set(&[1]),
        )
        .unwrap();
        state.start_period().unwrap();
        state.start_period().unwrap();
        match state.receive_proof(PeriodId(11), SuperblockNumber(6), vec![7], ChainId(1)) {
            ProofReceipt::Complete {
                last_superblock_hash,
                proofs,
            } => {
                assert_eq!(last_superblock_hash, SuperblockHash([4; 32]));
                assert_eq!(proofs, vec![vec![7]]);
            }
            other => panic!("{:?}", other),
        }
        state
    };
    let mut state = fresh();
    match state.conclude(SuperblockNumber(6), Ok(vec![9])) {
        Conclusion::Publish {
            superblock_number,
            network_proof,
        } => {
            assert_eq!(superblock_number, SuperblockNumber(6));
            assert_eq!(network_proof, vec![9]);
        }
        other => panic!("{:?}", other),
    }
    assert!(state.proofs_for(SuperblockNumber(6)).is_none());
    assert_eq!(state.target_superblock_number(), SuperblockNumber(7));
    let mut state = fresh();
    match state.conclude(SuperblockNumber(6), Err("boom".into())) {
        Conclusion::AnnounceRollback {
            period_id,
            superblock_number,
            superblock_hash,
        } => {
            assert_eq!(period_id, PeriodId(12));
            assert_eq!(superblock_number, SuperblockNumber(5));
            assert_eq!(superblock_hash, SuperblockHash([4; 32]));
        }
        other => panic!("{:?}", other),
    }
    assert!(state.proofs_for(SuperblockNumber(6)).is_none());
    assert_eq!(state.target_superblock_number(), SuperblockNumber(6));
}

#[test]
fn each_refusal_has_its_reason() {
    let mut state = PublisherState::new(
        PeriodId(10),
        SuperblockNumber(5),
        SuperblockNumber(5),
        SuperblockHash([4; 32]),
        0,
        make_chain_set(&[1, 2]),
    )
    .unwrap();
    for _ in 0..3 {
        state.start_period().unwrap();
    }
    let mut hand_in = |period: u64, sb: u64| {
        state.receive_proof(PeriodId(period), SuperblockNumber(sb), vec![1], ChainId(1))
    };
    assert!(matches!(
        hand_in(10, 5),
        ProofReceipt::Ignored(Refusal::OldSuperblock)
    ));
    assert!(matches!(
        hand_in(13, 8),
        ProofReceipt::Ignored(Refusal::NotTerminated)
    ));
    assert!(matches!(
        hand_in(12, 7),
        ProofReceipt::Ignored(Refusal::NotNext)
    ));
    assert!(matches!(
        hand_in(12, 6),
        ProofReceipt::Ignored(Refusal::WrongPeriod)
    ));
    assert!(matches!(
        hand_in(11, 6),
        ProofReceipt::Waiting {
            received: 1,
            total: 2
        }
    ));
    assert!(matches!(
        hand_in(11, 6),
        ProofReceipt::Ignored(Refusal::Duplicate)
    ));
}

#[test]
fn a_rollback_refuses_proofs_until_the_next_superblock_is_closed() {
    let chains = make_chain_set(&[1]);
    let (mut pub_inst, _, prover, _) =
        new_publisher_for_test(10, 5, 5, SuperblockHash([1; 32]), 0, chains);
    pub_inst.start_period().unwrap();
    pub_inst.start_period().unwrap();
    pub_inst.proof_timeout();
    for sb in 4..9 {
        for period in 9..14 {
            pub_inst.receive_proof(PeriodId(period), SuperblockNumber(sb), vec![1], ChainId(1));
        }
    }
    assert!(prover.calls.lock().unwrap().is_empty());
    pub_inst.start_period().unwrap();
    pub_inst.receive_proof(PeriodId(12), SuperblockNumber(6), vec![1], ChainId(1));
    assert_eq!(prover.calls.lock().unwrap().len(), 1);
}

#[test]
fn proofs_may_come_in_any_order() {
    for order in [[1u64, 2, 3], [3, 1, 2]] {
        let chains = make_chain_set(&[1, 2, 3]);
        let (mut pub_inst, _, prover, _) =
            new_publisher_for_test(10, 5, 5, SuperblockHash([1; 32]), 0, chains);
        pub_inst.start_period().unwrap();
        pub_inst.start_period().unwrap();
        for chain in order {
            assert!(prover.calls.lock().unwrap().is_empty());
            pub_inst.receive_proof(
                PeriodId(11),
                SuperblockNumber(6),
                vec![chain as u8],
                ChainId(chain),
            );
        }
        let calls = prover.calls.lock().unwrap();
        let mut proofs = calls[0].2.clone();
        proofs.sort();
        assert_eq!(proofs, vec![vec![1], vec![2], vec![3]]);
    }
}

#[test]
fn settlement_moves_the_window() {
    let (mut pub_inst, m, _, _) =
        new_publisher_for_test(5, 7, 7, SuperblockHash([1; 32]), 1, default_chain_set());
    pub_inst.start_period().unwrap();
    pub_inst.start_period().unwrap();
    assert!(pub_inst.start_period().is_err());
    pub_inst
        .advance_settled_state(SuperblockNumber(8), SuperblockHash([2; 32]))
        .unwrap();
    pub_inst.start_period().unwrap();
    assert!(pub_inst.start_period().is_err());
    assert_eq!(m.start_periods.lock().unwrap().len(), 3);
}

#[test]
fn a_proof_of_another_chain_stands_for_no_missing_one() {
    let chains = make_chain_set(&[1, 2]);
    let (mut pub_inst, _, prover, l1) =
        new_publisher_for_test(10, 5, 5, SuperblockHash([1; 32]), 0, chains);
    pub_inst.start_period().unwrap();
    pub_inst.start_period().unwrap();
    for chain in [1u64, 99, 98] {
        pub_inst.receive_proof(
            PeriodId(11),
            SuperblockNumber(6),
            vec![chain as u8],
            ChainId(chain),
        );
        assert!(prover.calls.lock().unwrap().is_empty());
    }
    assert_eq!(pub_inst.proofs_for(SuperblockNumber(6)).unwrap().len(), 3);
    pub_inst.receive_proof(PeriodId(11), SuperblockNumber(6), vec![2], ChainId(2));
    let calls = prover.calls.lock().unwrap();
    assert_eq!(calls.len(), 1);
    assert!(calls[0].2.contains(&vec![1]));
    assert!(calls[0].2.contains(&vec![2]));
    assert_eq!(l1.published.lock().unwrap().len(), 1);
}

#[test]
fn receipts_tell_how_many_proofs_there_are() {
    let mut state = PublisherState::new(
        PeriodId(10),
        SuperblockNumber(5),
        SuperblockNumber(5),
        SuperblockHash([4; 32]),
        0,
        make_chain_set(&[1, 2]),
    )
    .unwrap();
    state.start_period().unwrap();
    state.start_period().unwrap();
    for (chain, count) in [(1u64, 1usize), (99, 2)] {
        match state.receive_proof(PeriodId(11), SuperblockNumber(6), vec![1], ChainId(chain)) {
            ProofReceipt::Waiting { received, total } => {
                assert_eq!(received, count);
                assert_eq!(total, 2);
            }
            other => panic!("{:?}", other),
        }
    }
}

#[test]
fn services_are_called_only_where_there_is_something_to_say() {
    let chains = make_chain_set(&[1, 2]);
    let (mut pub_inst, m, prover, l1) =
        new_publisher_for_test(10, 5, 5, SuperblockHash([1; 32]), 1, chains);
    pub_inst.start_period().unwrap();
    pub_inst.start_period().unwrap();
    // A refused period is not announced.
    assert!(pub_inst.start_period().is_err());
    assert_eq!(
        *m.start_periods.lock().unwrap(),
        vec![
            (PeriodId(11), SuperblockNumber(6)),
            (PeriodId(12), SuperblockNumber(7))
        ]
    );
    for (period, sb, chain) in [(11u64, 6u64, 1u64), (11, 6, 1), (11, 6, 99), (12, 7, 2), (9, 6, 2)] {
        pub_inst.receive_proof(
            PeriodId(period),
            SuperblockNumber(sb),
            vec![1],
            ChainId(chain),
        );
    }
    let request = make_xt_request(vec![chain_req(1, &[b"a"]), chain_req(2, &[b"b"])]);
    pub_inst.start_instance(request).unwrap();
    assert!(pub_inst
        .advance_settled_state(SuperblockNumber(5), SuperblockHash([2; 32]))
        .is_err());
    assert!(prover.calls.lock().unwrap().is_empty());
    assert!(l1.published.lock().unwrap().is_empty());
    assert!(m.rollbacks.lock().unwrap().is_empty());
    assert_eq!(m.start_periods.lock().unwrap().len(), 2);
    pub_inst.proof_timeout();
    assert_eq!(
        *m.rollbacks.lock().unwrap(),
        vec![(PeriodId(12), SuperblockNumber(5), SuperblockHash([1; 32]))]
    );
    assert!(prover.calls.lock().unwrap().is_empty());
    assert!(l1.published.lock().unwrap().is_empty());
}
