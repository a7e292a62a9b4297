use std::collections::HashMap;

use publisher::mailbox::{validate_mailbox_consistency, MailboxError, MailboxInfo, ProofData};
use publisher::metrics::{Metric, MetricChange, MetricKind};
use publisher::effects::MetricUpdate;
use publisher::table::IdTable;
use publisher::text::{parse_number, parse_number_prefix, u64_to_decimal};
use publisher::time::{Duration, Instant};

fn with_mailboxes(inboxes: &[(u64, u8)], outboxes: &[(u64, u8)]) -> ProofData {
    let mut data = ProofData::bare(vec![1]);
    data.mailbox_info = MailboxInfo {
        inbox_chains: inboxes.iter().map(|b| b.0).collect(),
        inbox_roots: inboxes.iter().map(|b| [b.1; 32]).collect(),
        outbox_chains: outboxes.iter().map(|b| b.0).collect(),
        outbox_roots: outboxes.iter().map(|b| [b.1; 32]).collect(),
    };
    data
}

fn by_chain(proofs: Vec<(u64, ProofData)>) -> HashMap<u64, ProofData> {
    proofs.into_iter().collect()
}

#[test]
fn agreeing_mailboxes_pass() {
    assert_eq!(validate_mailbox_consistency(&HashMap::new()), Ok(()));
    // Messages in both directions, with a root for each direction.
    let proofs = by_chain(vec![
        (1, with_mailboxes(&[(2, 4)], &[(2, 5)])),
        (2, with_mailboxes(&[(1, 5)], &[(1, 4)])),
    ]);
    assert_eq!(validate_mailbox_consistency(&proofs), Ok(()));
    // What two senders list for one receiver are different outboxes.
    let proofs = by_chain(vec![
        (1, with_mailboxes(&[], &[(3, 6)])),
        (2, with_mailboxes(&[], &[(9, 1), (3, 7)])),
        (3, with_mailboxes(&[(1, 6), (2, 7)], &[])),
    ]);
    assert_eq!(validate_mailbox_consistency(&proofs), Ok(()));
    // An inbox is not held against anything where the sender has no proof, or lists
    // no outbox for the receiver.
    let proofs = by_chain(vec![
        (1, with_mailboxes(&[(7, 1), (2, 1)], &[])),
        (2, with_mailboxes(&[], &[(2, 8)])),
    ]);
    assert_eq!(validate_mailbox_consistency(&proofs), Ok(()));
}

#[test]
fn disagreeing_mailboxes_are_reported() {
    let proofs = by_chain(vec![
        (1, with_mailboxes(&[(2, 0xaa)], &[])),
        (2, with_mailboxes(&[], &[(1, 0xbb)])),
    ]);
    assert_eq!(
        validate_mailbox_consistency(&proofs),
        Err(MailboxError::Mismatch {
            chain: 1,
            inbox_chain: 2
        })
    );
    let proofs = by_chain(vec![
        (2, with_mailboxes(&[], &[(3, 5), (3, 6)])),
        (3, with_mailboxes(&[(2, 6)], &[])),
    ]);
    let err = validate_mailbox_consistency(&proofs).unwrap_err();
    assert_eq!(
        err,
        MailboxError::Mismatch {
            chain: 3,
            inbox_chain: 2
        }
    );
    assert_eq!(
        err.message(),
        "Mailbox mismatch: chain 3 inbox from 2 != counterparty outbox"
    );
    let mut short = with_mailboxes(&[(2, 6)], &[]);
    short.mailbox_info.inbox_roots.clear();
    let err = validate_mailbox_consistency(&by_chain(vec![(4, short)])).unwrap_err();
    assert_eq!(err, MailboxError::RootMissing { chain: 4 });
    assert_eq!(
        err.message(),
        "chain 4: inbox_roots shorter than inbox_chains"
    );
}

#[test]
fn the_first_fault_of_a_chain_is_reported() {
    let mut receiver = with_mailboxes(&[(2, 1), (3, 2), (4, 3)], &[]);
    receiver.mailbox_info.inbox_roots.truncate(2);
    let mut proofs = by_chain(vec![
        (1, receiver),
        (2, with_mailboxes(&[], &[(1, 1)])),
        (3, with_mailboxes(&[], &[(1, 9)])),
    ]);
    assert_eq!(
        validate_mailbox_consistency(&proofs),
        Err(MailboxError::Mismatch {
            chain: 1,
            inbox_chain: 3
        })
    );
    proofs.insert(3, with_mailboxes(&[], &[(1, 2)]));
    assert_eq!(
        validate_mailbox_consistency(&proofs),
        Err(MailboxError::RootMissing { chain: 1 })
    );
}

#[test]
fn an_outbox_without_a_root_is_not_held_against_anything() {
    let mut sender = with_mailboxes(&[], &[(3, 5)]);
    sender.mailbox_info.outbox_roots.clear();
    let mut proofs = by_chain(vec![(2, sender), (3, with_mailboxes(&[(2, 6)], &[]))]);
    assert_eq!(validate_mailbox_consistency(&proofs), Ok(()));
    // Nor does a chain that has exchanged nothing change anything.
    proofs.insert(5, ProofData::bare(vec![2]));
    assert_eq!(validate_mailbox_consistency(&proofs), Ok(()));
}

#[test]
fn numbers_are_written_and_read() {
    for n in [0u64, 7, 10, 12345, u64::MAX] {
        let text = u64_to_decimal(n);
        assert_eq!(text, n.to_string());
        assert_eq!(parse_number(&text, u64::MAX), Some(n));
        assert_eq!(parse_number_prefix(&text), Some(n));
    }
    assert_eq!(parse_number("300", 255), None);
    assert_eq!(parse_number_prefix("12a34"), Some(12));
    assert_eq!(parse_number_prefix("a12"), None);
}

#[test]
fn tables_hold_one_value_per_identifier() {
    let mut t: IdTable<u32> = IdTable::new();
    t.insert("a".to_string(), 1);
    t.insert("b".to_string(), 2);
    t.insert("a".to_string(), 3);
    assert_eq!(t.len(), 2);
    assert_eq!(t.get("a"), Some(&3));
    assert_eq!(t.remove("a"), Some(3));
    assert_eq!(t.remove("a"), None);
    assert_eq!(t.get("b"), Some(&2));
    assert_eq!(*t.value_at(0), 2);
    assert_eq!(t.remove_at(0), ("b".to_string(), 2));
    assert_eq!(t.len(), 0);
}

#[test]
fn time_never_runs_backwards() {
    let a = Instant::from_nanos(5);
    let b = Instant::from_nanos(9);
    assert_eq!(b.duration_since(&a), Duration::from_nanos(4));
    assert_eq!(a.duration_since(&b), Duration::from_nanos(0));
    assert!(Duration::from_secs(1).at_least(&Duration::from_nanos(1_000_000_000)));
    assert!(Duration::from_nanos(0).is_zero());
}

#[test]
fn metrics_are_described() {
    let all = Metric::all();
    assert_eq!(all.len(), 10);
    let names: std::collections::HashSet<&str> = all.iter().map(|m| m.name()).collect();
    assert_eq!(names.len(), 10);
    assert_eq!(all[0].name(), "publisher_connections_active");
    assert_eq!(all[0].help(), "Active sidecar connections");
    assert_eq!(all[0].kind(), MetricKind::Gauge);
    assert_eq!(
        Metric::XtDecisionLatency.bounds_ms(),
        vec![10, 50, 100, 250, 500, 1000, 2500, 5000, 10000]
    );
    let inclusion = Metric::XtBlockInclusionLatency.bounds_ms();
    assert_eq!(inclusion.len(), 17);
    assert_eq!(inclusion[0], 1000);
    assert_eq!(inclusion[16], 5000);
    assert!(Metric::XtStarted.bounds_ms().is_empty());
    assert_eq!(
        MetricUpdate::XtFinalisedPerPeriod(4).change(),
        (Metric::XtFinalisedPerPeriod, MetricChange::Assign(4))
    );
    assert_eq!(
        MetricUpdate::DecisionLatency(Duration::from_secs(1)).change(),
        (
            Metric::XtDecisionLatency,
            MetricChange::Observe(Duration::from_secs(1))
        )
    );
}
