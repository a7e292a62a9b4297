//! Proof data of the chains and the check that their mailboxes agree.

use std::collections::HashMap;

use vstd::prelude::*;
use vstd::string::*;

#[allow(unused_imports)]
use crate::text::decimal;
use crate::text::u64_to_decimal;

verus! {

broadcast use vstd::std_specs::hash::group_hash_axioms;

/// The state of a chain's mailboxes at the end of a superblock.
#[derive(Clone, Debug, PartialEq, Eq)]
pub struct MailboxInfo {
    /// The chains that this chain has received messages from.
    pub inbox_chains: Vec<u64>,
    /// The root of each inbox, in the order of `inbox_chains`.
    pub inbox_roots: Vec<[u8; 32]>,
    /// The chains that this chain has sent messages to.
    pub outbox_chains: Vec<u64>,
    /// The root of each outbox, in the order of `outbox_chains`.
    pub outbox_roots: Vec<[u8; 32]>,
}

/// The content of a [`MailboxInfo`].
#[verifier::ext_equal]
pub struct MailboxInfoView {
    /// The chains that this chain has received messages from.
    pub inbox_chains: Seq<u64>,
    /// The root of each inbox.
    pub inbox_roots: Seq<[u8; 32]>,
    /// The chains that this chain has sent messages to.
    pub outbox_chains: Seq<u64>,
    /// The root of each outbox.
    pub outbox_roots: Seq<[u8; 32]>,
}

impl View for MailboxInfo {
    type V = MailboxInfoView;

    open spec fn view(&self) -> MailboxInfoView {
        MailboxInfoView {
            inbox_chains: self.inbox_chains@,
            inbox_roots: self.inbox_roots@,
            outbox_chains: self.outbox_chains@,
            outbox_roots: self.outbox_roots@,
        }
    }
}

/// The mailboxes of a chain that has exchanged nothing.
pub open spec fn no_mailboxes() -> MailboxInfoView {
    MailboxInfoView {
        inbox_chains: Seq::empty(),
        inbox_roots: Seq::empty(),
        outbox_chains: Seq::empty(),
        outbox_roots: Seq::empty(),
    }
}

impl Default for MailboxInfo {
    /// The mailboxes of a chain that has exchanged nothing.
    fn default() -> (m: MailboxInfo)
        ensures
            m@ == no_mailboxes(),
    {
        MailboxInfo {
            inbox_chains: Vec::new(),
            inbox_roots: Vec::new(),
            outbox_chains: Vec::new(),
            outbox_roots: Vec::new(),
        }
    }
}

/// What a chain hands in to prove its part of a superblock.
#[derive(Clone, Debug, PartialEq, Eq)]
pub struct ProofData {
    /// The encoded outputs of the aggregation program, passed on as they are.
    pub aggregation_outputs: Vec<u8>,
    /// The compressed proof.
    pub compressed_proof: Vec<u8>,
    /// The hash of the aggregation program's verification key.
    pub agg_vkey_hash: [u8; 32],
    /// The chain's mailboxes.
    pub mailbox_info: MailboxInfo,
}

/// The content of a [`ProofData`].
#[verifier::ext_equal]
pub struct ProofDataView {
    /// The encoded outputs of the aggregation program.
    pub aggregation_outputs: Seq<u8>,
    /// The compressed proof.
    pub compressed_proof: Seq<u8>,
    /// The hash of the aggregation program's verification key.
    pub agg_vkey_hash: Seq<u8>,
    /// The chain's mailboxes.
    pub mailbox_info: MailboxInfoView,
}

impl View for ProofData {
    type V = ProofDataView;

    open spec fn view(&self) -> ProofDataView {
        ProofDataView {
            aggregation_outputs: self.aggregation_outputs@,
            compressed_proof: self.compressed_proof@,
            agg_vkey_hash: self.agg_vkey_hash@,
            mailbox_info: self.mailbox_info@,
        }
    }
}

/// A proof that comes with nothing but the compressed proof itself.
pub open spec fn bare_proof(compressed_proof: Seq<u8>) -> ProofDataView {
    ProofDataView {
        aggregation_outputs: Seq::empty(),
        compressed_proof,
        agg_vkey_hash: Seq::new(32, |i: int| 0u8),
        mailbox_info: no_mailboxes(),
    }
}

impl ProofData {
    /// A proof that comes with nothing but the compressed proof itself.
    pub fn bare(compressed_proof: Vec<u8>) -> (d: ProofData)
        ensures
            d@ == bare_proof(compressed_proof@),
    {
        let d = ProofData {
            aggregation_outputs: Vec::new(),
            compressed_proof,
            agg_vkey_hash: [0u8;32],
            mailbox_info: MailboxInfo::default(),
        };
        assert(d@.agg_vkey_hash =~= Seq::new(32, |i: int| 0u8));
        d
    }
}

/// Why the mailboxes of a set of chains do not agree.
#[derive(Clone, Copy, Debug, PartialEq, Eq, Structural)]
pub enum MailboxError {
    /// A chain lists an inbox without its root.
    RootMissing {
        /// The chain.
        chain: u64,
    },
    /// The root of an inbox differs from that of the outbox on the other side.
    Mismatch {
        /// The chain that owns the inbox.
        chain: u64,
        /// The chain that the inbox is listed under.
        inbox_chain: u64,
    },
}

/// What [`MailboxError::message`] says.
pub open spec fn mailbox_error_text(e: MailboxError) -> Seq<char> {
    match e {
        MailboxError::RootMissing { chain } => "chain "@ + decimal(chain as nat)
            + ": inbox_roots shorter than inbox_chains"@,
        MailboxError::Mismatch { chain, inbox_chain } => "Mailbox mismatch: chain "@ + decimal(
            chain as nat,
        ) + " inbox from "@ + decimal(inbox_chain as nat) + " != counterparty outbox"@,
    }
}

impl MailboxError {
    /// The error in words.
    pub fn message(&self) -> (text: String)
        ensures
            text@ == mailbox_error_text(*self),
    {
        match self {
            MailboxError::RootMissing { chain } => {
                let mut text = "chain ".to_string();
                text.append(u64_to_decimal(*chain).as_str());
                text.append(": inbox_roots shorter than inbox_chains");
                text
            },
            MailboxError::Mismatch { chain, inbox_chain } => {
                let mut text = "Mailbox mismatch: chain ".to_string();
                text.append(u64_to_decimal(*chain).as_str());
                text.append(" inbox from ");
                text.append(u64_to_decimal(*inbox_chain).as_str());
                text.append(" != counterparty outbox");
                text
            },
        }
    }
}

/// The proofs of a set of chains, by chain.
pub open spec fn proof_views(proofs: Map<u64, ProofData>) -> Map<u64, ProofDataView> {
    proofs.map_values(|p: ProofData| p@)
}

/// `k` is the first index of `x` in `s`.
pub open spec fn is_first_index(s: Seq<u64>, x: u64, k: int) -> bool {
    &&& 0 <= k < s.len()
    &&& s[k] == x
    &&& forall|j: int| 0 <= j < k ==> #[trigger] s[j] != x
}

/// The root of the outbox of chain `from` for messages to chain `to`, where there
/// is a proof of `from` that lists such an outbox with its root.
pub open spec fn outbox_root(proofs: Map<u64, ProofDataView>, from: u64, to: u64) -> Option<
    [u8; 32],
> {
    let info = proofs[from].mailbox_info;
    if proofs.contains_key(from) && info.outbox_chains.contains(to) {
        let at = choose|at: int| is_first_index(info.outbox_chains, to, at);
        if at < info.outbox_roots.len() {
            Some(info.outbox_roots[at])
        } else {
            None
        }
    } else {
        None
    }
}

/// What is wrong with inbox `idx` of `chain`, where something is: it has no root,
/// or its root differs from that of the sender's outbox for `chain`.
pub open spec fn inbox_fault(proofs: Map<u64, ProofDataView>, chain: u64, idx: int) -> Option<
    MailboxError,
> {
    let info = proofs[chain].mailbox_info;
    if idx >= info.inbox_roots.len() {
        Some(MailboxError::RootMissing { chain })
    } else {
        match outbox_root(proofs, info.inbox_chains[idx], chain) {
            Some(root) => if root != info.inbox_roots[idx] {
                Some(MailboxError::Mismatch { chain, inbox_chain: info.inbox_chains[idx] })
            } else {
                None
            },
            None => None,
        }
    }
}

/// There is a proof of `chain`, and it lists an inbox `idx`.
pub open spec fn is_inbox(proofs: Map<u64, ProofDataView>, chain: u64, idx: int) -> bool {
    proofs.contains_key(chain) && 0 <= idx < proofs[chain].mailbox_info.inbox_chains.len()
}

/// Every inbox has a root, and it is that of the sender's outbox, where the sender's
/// proof gives one.
pub open spec fn mailboxes_agree(proofs: Map<u64, ProofDataView>) -> bool {
    forall|chain: u64, idx: int|
        is_inbox(proofs, chain, idx) ==> #[trigger] inbox_fault(proofs, chain, idx) is None
}

/// Inbox `idx` of `chain` is the first one of that chain with a fault, and the
/// fault is `e`.
pub open spec fn first_fault(
    proofs: Map<u64, ProofDataView>,
    chain: u64,
    idx: int,
    e: MailboxError,
) -> bool {
    &&& is_inbox(proofs, chain, idx)
    &&& inbox_fault(proofs, chain, idx) == Some(e)
    &&& forall|idx2: int| 0 <= idx2 < idx ==> #[trigger] inbox_fault(proofs, chain, idx2) is None
}

/// The first index of `x` in `list`.
fn first_index(list: &Vec<u64>, x: u64) -> (r: Option<usize>)
    ensures
        match r {
            Some(k) => is_first_index(list@, x, k as int),
            None => !list@.contains(x),
        },
{
    for i in 0..list.len()
        invariant
            forall|j: int| 0 <= j < i ==> #[trigger] list@[j] != x,
    {
        if list[i] == x {
            return Some(i);
        }
    }
    None
}

/// Whether two roots are the same.
fn same_root(a: &[u8; 32], b: &[u8; 32]) -> (same: bool)
    ensures
        same == (*a == *b),
{
    let mut i: usize = 0;
    while i < 32
        invariant
            i <= 32,
            forall|j: int| 0 <= j < i ==> a@[j] == b@[j],
        decreases 32 - i,
    {
        if a[i] != b[i] {
            assert(a@[i as int] != b@[i as int]);
            return false;
        }
        i += 1;
    }
    assert(a@ =~= b@);
    assert(*a =~= *b);
    true
}

/// The root of the outbox of chain `from` for messages to chain `to`, where there
/// is a proof of `from` that lists such an outbox with its root.
fn find_outbox_root(proofs: &HashMap<u64, ProofData>, from: u64, to: u64) -> (r: Option<[u8; 32]>)
    ensures
        r == outbox_root(proof_views(proofs@), from, to),
{
    match proofs.get(&from) {
        Some(data) => {
            let info = &data.mailbox_info;
            assert(proof_views(proofs@)[from].mailbox_info == info@);
            match first_index(&info.outbox_chains, to) {
                Some(at) => {
                    proof {
                        assert(info.outbox_chains@[at as int] == to);
                        let at2 = choose|at2: int| is_first_index(info.outbox_chains@, to, at2);
                        assert(is_first_index(info.outbox_chains@, to, at2));
                        assert(at2 == at) by {
                            if at2 < at {
                                assert(info.outbox_chains@[at2] != to);
                            } else if at < at2 {
                                assert(info.outbox_chains@[at as int] != to);
                            }
                        }
                    }
                    if at < info.outbox_roots.len() {
                        Some(info.outbox_roots[at])
                    } else {
                        None
                    }
                },
                None => None,
            }
        },
        None => None,
    }
}

/// The first fault among the inboxes of `chain`, where `data` is its proof.
fn chain_fault(proofs: &HashMap<u64, ProofData>, chain: u64, data: &ProofData) -> (r: Result<
    (),
    MailboxError,
>)
    requires
        proofs@.contains_key(chain),
        proofs@[chain] == *data,
    ensures
        match r {
            Ok(()) => forall|idx: int|
                is_inbox(proof_views(proofs@), chain, idx) ==> #[trigger] inbox_fault(
                    proof_views(proofs@),
                    chain,
                    idx,
                ) is None,
            Err(e) => exists|idx: int| #[trigger]
                first_fault(proof_views(proofs@), chain, idx, e),
        },
{
    let ghost views = proof_views(proofs@);
    let info = &data.mailbox_info;
    assert(views[chain].mailbox_info == info@);
    for idx in 0..info.inbox_chains.len()
        invariant
            views == proof_views(proofs@),
            proofs@.contains_key(chain),
            views[chain].mailbox_info == info@,
            forall|idx2: int|
                0 <= idx2 < idx ==> #[trigger] inbox_fault(views, chain, idx2) is None,
    {
        let inbox_chain: u64 = info.inbox_chains[idx];
        assert(is_inbox(views, chain, idx as int));
        if idx >= info.inbox_roots.len() {
            assert(first_fault(views, chain, idx as int, MailboxError::RootMissing { chain }));
            return Err(MailboxError::RootMissing { chain });
        }
        if let Some(root) = find_outbox_root(proofs, inbox_chain, chain) {
            if !same_root(&root, &info.inbox_roots[idx]) {
                assert(first_fault(
                    views,
                    chain,
                    idx as int,
                    MailboxError::Mismatch { chain, inbox_chain },
                ));
                return Err(MailboxError::Mismatch { chain, inbox_chain });
            }
        }
    }
    Ok(())
}

/// Checks that every inbox has a root, and that it is the root of the outbox that
/// the sender's proof lists for the receiving chain, where it lists one. The first
/// fault of one of the chains is reported; where several chains have one, it is
/// open whose.
pub fn validate_mailbox_consistency(proofs: &HashMap<u64, ProofData>) -> (r: Result<
    (),
    MailboxError,
>)
    ensures
        match r {
            Ok(()) => mailboxes_agree(proof_views(proofs@)),
            Err(e) => exists|chain: u64, idx: int| #[trigger]
                first_fault(proof_views(proofs@), chain, idx, e),
        },
        r is Ok <==> mailboxes_agree(proof_views(proofs@)),
{
    let ghost views = proof_views(proofs@);
    let ghost pairs = vstd::std_specs::iter::IteratorSpec::remaining(
        &vstd::std_specs::hash::spec_hash_map_iter(proofs),
    );
    for (chain, data) in it: proofs.iter()
        invariant
            it.seq() == pairs,
            pairs == vstd::std_specs::iter::IteratorSpec::remaining(
                &vstd::std_specs::hash::spec_hash_map_iter(proofs),
            ),
            views == proof_views(proofs@),
            forall|i: int, idx: int|
                0 <= i < it.index() && is_inbox(views, *pairs[i].0, idx) ==> #[trigger] inbox_fault(
                    views,
                    *pairs[i].0,
                    idx,
                ) is None,
    {
        assert(proofs@.contains_key(*pairs[it.index()].0));
        match chain_fault(proofs, *chain, data) {
            Ok(()) => {},
            Err(e) => {
                proof {
                    let idx = choose|idx: int| #[trigger] first_fault(views, *chain, idx, e);
                    assert(inbox_fault(views, *chain, idx) is Some);
                }
                return Err(e);
            },
        }
    }
    assert forall|chain: u64, idx: int| is_inbox(views, chain, idx) implies #[trigger] inbox_fault(
        views,
        chain,
        idx,
    ) is None by {
        assert(proofs@.contains_key(chain));
        assert(pairs.contains((&chain, &proofs@[chain])));
        let i = choose|i: int| 0 <= i < pairs.len() && pairs[i] == (&chain, &proofs@[chain]);
        assert(inbox_fault(views, *pairs[i].0, idx) is None);
    }
    Ok(())
}

/// Inbox `idx` of chain `to`, whose sender is `from`, has a root; and where the sender
/// has handed in a proof, the first outbox in it for `to` has the same root, where it
/// has one.
pub open spec fn matches_sender(
    proofs: Map<u64, ProofDataView>,
    from: u64,
    to: u64,
    idx: int,
) -> bool {
    let received = proofs[to].mailbox_info;
    let sent = proofs[from].mailbox_info;
    &&& idx < received.inbox_roots.len()
    &&& proofs.contains_key(from) ==> forall|k: int|
        #![trigger sent.outbox_chains[k]]
        0 <= k < sent.outbox_chains.len() && sent.outbox_chains[k] == to && (forall|j: int|
            0 <= j < k ==> #[trigger] sent.outbox_chains[j] != to) && k < sent.outbox_roots.len()
            ==> received.inbox_roots[idx] == sent.outbox_roots[k]
}

/// The mailboxes agree exactly if every inbox of every chain has a root, and that is
/// the root at the first place at which the sender's proof lists the receiver among
/// its outboxes, wherever in the list that is.
pub proof fn agreement_is_equality_of_roots(proofs: Map<u64, ProofDataView>)
    ensures
        mailboxes_agree(proofs) <==> forall|to: u64, idx: int|
            #![trigger proofs[to].mailbox_info.inbox_chains[idx]]
            proofs.contains_key(to) && 0 <= idx < proofs[to].mailbox_info.inbox_chains.len()
                ==> matches_sender(proofs, proofs[to].mailbox_info.inbox_chains[idx], to, idx),
{
    assert forall|to: u64, idx: int| is_inbox(proofs, to, idx) implies (#[trigger] inbox_fault(
        proofs,
        to,
        idx,
    ) is None <==> matches_sender(
        proofs,
        proofs[to].mailbox_info.inbox_chains[idx],
        to,
        idx,
    )) by {
        inbox_matches_or_is_at_fault(proofs, to, idx);
    }
    if mailboxes_agree(proofs) {
        assert forall|to: u64, idx: int|
            #![trigger proofs[to].mailbox_info.inbox_chains[idx]]
            proofs.contains_key(to) && 0 <= idx
                < proofs[to].mailbox_info.inbox_chains.len() implies matches_sender(
            proofs,
            proofs[to].mailbox_info.inbox_chains[idx],
            to,
            idx,
        ) by {
            assert(is_inbox(proofs, to, idx));
            assert(inbox_fault(proofs, to, idx) is None);
        }
    }
    if forall|to: u64, idx: int|
        #![trigger proofs[to].mailbox_info.inbox_chains[idx]]
        proofs.contains_key(to) && 0 <= idx < proofs[to].mailbox_info.inbox_chains.len()
            ==> matches_sender(proofs, proofs[to].mailbox_info.inbox_chains[idx], to, idx) {
        assert forall|to: u64, idx: int| is_inbox(proofs, to, idx) implies #[trigger] inbox_fault(
            proofs,
            to,
            idx,
        ) is None by {
            let from = proofs[to].mailbox_info.inbox_chains[idx];
            assert(matches_sender(proofs, from, to, idx));
        }
    }
}

/// An inbox is at fault exactly if it has no root, or its root is not that of the
/// sender's first outbox for its chain; and the fault says which of the two, of which
/// chain, and of which sender.
pub proof fn inbox_matches_or_is_at_fault(proofs: Map<u64, ProofDataView>, to: u64, idx: int)
    requires
        is_inbox(proofs, to, idx),
    ensures
        match inbox_fault(proofs, to, idx) {
            None => matches_sender(proofs, proofs[to].mailbox_info.inbox_chains[idx], to, idx),
            Some(MailboxError::RootMissing { chain }) => chain == to && idx
                >= proofs[to].mailbox_info.inbox_roots.len(),
            Some(MailboxError::Mismatch { chain, inbox_chain }) => {
                &&& chain == to
                &&& inbox_chain == proofs[to].mailbox_info.inbox_chains[idx]
                &&& idx < proofs[to].mailbox_info.inbox_roots.len()
                &&& !matches_sender(proofs, inbox_chain, to, idx)
            },
        },
        inbox_fault(proofs, to, idx) is Some ==> !matches_sender(
            proofs,
            proofs[to].mailbox_info.inbox_chains[idx],
            to,
            idx,
        ),
{
    let from = proofs[to].mailbox_info.inbox_chains[idx];
    let sent = proofs[from].mailbox_info;
    let received = proofs[to].mailbox_info;
    if idx < received.inbox_roots.len() && proofs.contains_key(from) {
        if sent.outbox_chains.contains(to) {
            first_index_exists(sent.outbox_chains, to);
            let at = choose|at: int| is_first_index(sent.outbox_chains, to, at);
            assert(is_first_index(sent.outbox_chains, to, at));
            assert forall|k: int|
                #![trigger sent.outbox_chains[k]]
                0 <= k < sent.outbox_chains.len() && sent.outbox_chains[k] == to && (forall|j: int|
                    0 <= j < k ==> #[trigger] sent.outbox_chains[j] != to) implies k == at by {
                if k < at {
                    assert(sent.outbox_chains[k] != to);
                } else if at < k {
                    assert(sent.outbox_chains[at] != to);
                }
            }
            if at < sent.outbox_roots.len() && matches_sender(proofs, from, to, idx) {
                assert(sent.outbox_chains[at] == to);
                assert(received.inbox_roots[idx] == sent.outbox_roots[at]);
            }
        } else {
            assert forall|k: int|
                #![trigger sent.outbox_chains[k]]
                0 <= k < sent.outbox_chains.len() implies sent.outbox_chains[k] != to by {
                assert(sent.outbox_chains.contains(sent.outbox_chains[k]));
            }
        }
    }
}

/// The fault that is reported is the first one of its chain: every inbox before it
/// matches its sender, and it does not.
pub proof fn reported_fault_is_the_first(
    proofs: Map<u64, ProofDataView>,
    chain: u64,
    idx: int,
    e: MailboxError,
)
    requires
        first_fault(proofs, chain, idx, e),
    ensures
        proofs.contains_key(chain),
        0 <= idx < proofs[chain].mailbox_info.inbox_chains.len(),
        !matches_sender(proofs, proofs[chain].mailbox_info.inbox_chains[idx], chain, idx),
        e == (if idx >= proofs[chain].mailbox_info.inbox_roots.len() {
            MailboxError::RootMissing { chain }
        } else {
            MailboxError::Mismatch {
                chain,
                inbox_chain: proofs[chain].mailbox_info.inbox_chains[idx],
            }
        }),
        forall|before: int|
            0 <= before < idx ==> matches_sender(
                proofs,
                #[trigger] proofs[chain].mailbox_info.inbox_chains[before],
                chain,
                before,
            ),
{
    inbox_matches_or_is_at_fault(proofs, chain, idx);
    assert forall|before: int| 0 <= before < idx implies matches_sender(
        proofs,
        #[trigger] proofs[chain].mailbox_info.inbox_chains[before],
        chain,
        before,
    ) by {
        assert(inbox_fault(proofs, chain, before) is None);
        inbox_matches_or_is_at_fault(proofs, chain, before);
    }
}

/// What occurs in a list has a first place in it.
proof fn first_index_exists(s: Seq<u64>, x: u64)
    requires
        s.contains(x),
    ensures
        exists|at: int| is_first_index(s, x, at),
    decreases s.len(),
{
    let init = s.drop_last();
    if init.contains(x) {
        first_index_exists(init, x);
        let at = choose|at: int| is_first_index(init, x, at);
        assert(init[at] == s[at]);
        assert forall|j: int| 0 <= j < at implies #[trigger] s[j] != x by {
            assert(init[j] == s[j]);
        }
        assert(is_first_index(s, x, at));
    } else {
        let i = choose|i: int| 0 <= i < s.len() && s[i] == x;
        if i < init.len() {
            assert(init[i] == x);
        }
        assert forall|j: int| 0 <= j < s.len() - 1 implies #[trigger] s[j] != x by {
            assert(init[j] == s[j]);
            assert(init.contains(init[j]));
        }
        assert(is_first_index(s, x, s.len() - 1));
    }
}

/// The content of proof data is what its parts hold.
pub proof fn proof_data_view_is_faithful(d: ProofData)
    ensures
        d@.aggregation_outputs == d.aggregation_outputs@,
        d@.compressed_proof == d.compressed_proof@,
        d@.agg_vkey_hash == d.agg_vkey_hash@,
        d@.mailbox_info.inbox_chains == d.mailbox_info.inbox_chains@,
        d@.mailbox_info.inbox_roots == d.mailbox_info.inbox_roots@,
        d@.mailbox_info.outbox_chains == d.mailbox_info.outbox_chains@,
        d@.mailbox_info.outbox_roots == d.mailbox_info.outbox_roots@,
{
}

/// The proofs of a set of chains are those of its chains.
pub proof fn proof_views_are_faithful(proofs: Map<u64, ProofData>, chain: u64)
    ensures
        proof_views(proofs).contains_key(chain) == proofs.contains_key(chain),
        proofs.contains_key(chain) ==> proof_views(proofs)[chain] == proofs[chain]@,
{
}

/// A proof that comes with nothing else has no outputs, no mailboxes, and a key hash
/// of 32 zeros.
pub proof fn bare_proof_is_bare(compressed_proof: Seq<u8>, i: int)
    requires
        0 <= i < 32,
    ensures
        bare_proof(compressed_proof).compressed_proof == compressed_proof,
        bare_proof(compressed_proof).aggregation_outputs.len() == 0,
        bare_proof(compressed_proof).agg_vkey_hash.len() == 32,
        bare_proof(compressed_proof).agg_vkey_hash[i] == 0,
        bare_proof(compressed_proof).mailbox_info.inbox_chains.len() == 0,
        bare_proof(compressed_proof).mailbox_info.inbox_roots.len() == 0,
        bare_proof(compressed_proof).mailbox_info.outbox_chains.len() == 0,
        bare_proof(compressed_proof).mailbox_info.outbox_roots.len() == 0,
{
}

/// The message of a mailbox error names the chains that it is about.
pub proof fn mailbox_errors_name_their_chains(chain: u64, inbox_chain: u64)
    ensures
        mailbox_error_text(MailboxError::RootMissing { chain }) == "chain "@ + decimal(chain as nat)
            + ": inbox_roots shorter than inbox_chains"@,
        mailbox_error_text(MailboxError::Mismatch { chain, inbox_chain })
            == "Mailbox mismatch: chain "@ + decimal(chain as nat) + " inbox from "@ + decimal(
            inbox_chain as nat,
        ) + " != counterparty outbox"@,
{
}

/// Where the mailboxes agree, the root of each inbox is the one that the sender
/// lists for the receiver, in whichever direction the messages went.
pub proof fn agreement_matches_roots(
    proofs: Map<u64, ProofDataView>,
    from: u64,
    to: u64,
    idx: int,
)
    requires
        mailboxes_agree(proofs),
        is_inbox(proofs, to, idx),
        proofs[to].mailbox_info.inbox_chains[idx] == from,
        outbox_root(proofs, from, to) is Some,
    ensures
        idx < proofs[to].mailbox_info.inbox_roots.len(),
        outbox_root(proofs, from, to) == Some(proofs[to].mailbox_info.inbox_roots[idx]),
{
    assert(inbox_fault(proofs, to, idx) is None);
}

/// A set of proofs has a chain with a first fault exactly if its mailboxes do not
/// agree.
pub proof fn disagreement_has_a_first_fault(proofs: Map<u64, ProofDataView>)
    ensures
        mailboxes_agree(proofs) <==> !exists|chain: u64, idx: int, e: MailboxError| #[trigger]
            first_fault(proofs, chain, idx, e),
{
    if !mailboxes_agree(proofs) {
        let (chain, idx) = choose|chain: u64, idx: int|
            is_inbox(proofs, chain, idx) && #[trigger] inbox_fault(proofs, chain, idx) is Some;
        fault_has_a_first(proofs, chain, idx);
    }
}

/// From a fault, going back finds the chain's first one.
proof fn fault_has_a_first(proofs: Map<u64, ProofDataView>, chain: u64, idx: int)
    requires
        is_inbox(proofs, chain, idx),
        inbox_fault(proofs, chain, idx) is Some,
    ensures
        exists|idx2: int, e: MailboxError| #[trigger] first_fault(proofs, chain, idx2, e),
    decreases idx,
{
    if exists|idx2: int|
        0 <= idx2 < idx && #[trigger] inbox_fault(proofs, chain, idx2) is Some {
        let idx2 = choose|idx2: int|
            0 <= idx2 < idx && #[trigger] inbox_fault(proofs, chain, idx2) is Some;
        fault_has_a_first(proofs, chain, idx2);
    } else {
        assert(first_fault(proofs, chain, idx, inbox_fault(proofs, chain, idx)->0));
    }
}

/// Chains that have received no messages agree with everyone.
pub proof fn no_inboxes_no_fault(proofs: Map<u64, ProofDataView>)
    requires
        forall|chain: u64| #[trigger]
            proofs.contains_key(chain) ==> proofs[chain].mailbox_info.inbox_chains.len() == 0,
    ensures
        mailboxes_agree(proofs),
{
}

/// A chain that has exchanged nothing changes nothing for the others.
pub proof fn silent_chain_changes_nothing(
    proofs: Map<u64, ProofDataView>,
    chain: u64,
    data: ProofDataView,
)
    requires
        !proofs.contains_key(chain),
        data.mailbox_info == no_mailboxes(),
    ensures
        mailboxes_agree(proofs.insert(chain, data)) <==> mailboxes_agree(proofs),
{
    let more = proofs.insert(chain, data);
    assert forall|from: u64, to: u64| #[trigger]
        outbox_root(more, from, to) == outbox_root(proofs, from, to) by {}
    assert forall|c: u64, idx: int| is_inbox(proofs, c, idx) implies #[trigger] inbox_fault(
        more,
        c,
        idx,
    ) == inbox_fault(proofs, c, idx) && is_inbox(more, c, idx) by {}
    if mailboxes_agree(more) {
        assert forall|c: u64, idx: int| is_inbox(proofs, c, idx) implies #[trigger] inbox_fault(
            proofs,
            c,
            idx,
        ) is None by {
            assert(inbox_fault(more, c, idx) is None);
        }
    }
    if mailboxes_agree(proofs) {
        assert forall|c: u64, idx: int| is_inbox(more, c, idx) implies #[trigger] inbox_fault(
            more,
            c,
            idx,
        ) is None by {
            assert(is_inbox(proofs, c, idx));
            assert(inbox_fault(proofs, c, idx) is None);
        }
    }
}

} // verus!
