//! Identifiers and requests that the protocol layers share.

use vstd::prelude::*;
use vstd::slice::slice_to_vec;

use crate::text::hex_encode;
#[allow(unused_imports)]
use crate::text::hex_lower;

verus! {

/// A chain that takes part in the protocol.
#[derive(Clone, Copy, Debug, PartialEq, Eq, PartialOrd, Ord, Hash, Structural)]
pub struct ChainId(pub u64);

/// A publisher period.
#[derive(Clone, Copy, Debug, PartialEq, Eq, PartialOrd, Ord, Hash, Structural)]
pub struct PeriodId(pub u64);

/// The position of an instance within its period.
#[derive(Clone, Copy, Debug, PartialEq, Eq, PartialOrd, Ord, Hash, Structural)]
pub struct SequenceNumber(pub u64);

/// The height of a superblock.
#[derive(Clone, Copy, Debug, PartialEq, Eq, PartialOrd, Ord, Hash, Structural)]
pub struct SuperblockNumber(pub u64);

/// The hash of a superblock.
#[derive(Clone, Copy, Debug, PartialEq, Eq)]
pub struct SuperblockHash(pub [u8; 32]);

/// The identifier of a protocol instance.
#[derive(Clone, Copy, Debug, PartialEq, Eq)]
pub struct InstanceId(pub [u8; 32]);

impl ChainId {
    /// The chain with the given number.
    pub fn new(id: u64) -> (r: ChainId)
        ensures
            r == ChainId(id),
    {
        ChainId(id)
    }

    /// The chain's number.
    pub fn get(&self) -> (id: u64)
        ensures
            id == self.0,
    {
        self.0
    }
}

impl PeriodId {
    /// The period's number.
    pub fn get(&self) -> (id: u64)
        ensures
            id == self.0,
    {
        self.0
    }
}

impl SequenceNumber {
    /// The position as a number.
    pub fn get(&self) -> (n: u64)
        ensures
            n == self.0,
    {
        self.0
    }
}

impl SuperblockNumber {
    /// The superblock at height `n`.
    pub fn new(n: u64) -> (r: SuperblockNumber)
        ensures
            r == SuperblockNumber(n),
    {
        SuperblockNumber(n)
    }

    /// The height as a number.
    pub fn get(&self) -> (n: u64)
        ensures
            n == self.0,
    {
        self.0
    }
}

impl InstanceId {
    /// The identifier's bytes.
    pub fn as_bytes(&self) -> (b: &[u8])
        ensures
            b@ == self.0@,
    {
        self.0.as_slice()
    }

    /// The identifier in lower-case hexadecimal.
    pub fn to_string(&self) -> (s: String)
        ensures
            s@ == hex_lower(self.0@),
    {
        hex_encode(self.0.as_slice())
    }
}

/// The transactions that a cross-chain request places on one chain.
#[derive(Clone, Debug, PartialEq, Eq)]
pub struct TransactionRequest {
    /// The chain that runs the transactions.
    pub chain_id: ChainId,
    /// The raw transactions, in order.
    pub transactions: Vec<Vec<u8>>,
}

/// A request for one atomic step on several chains.
#[derive(Clone, Debug, PartialEq, Eq)]
pub struct XtRequest {
    /// What each chain is asked to run.
    pub transactions: Vec<TransactionRequest>,
}

/// The bytes in a list of byte strings.
pub open spec fn byte_strings(list: Seq<Vec<u8>>) -> Seq<Seq<u8>> {
    list.map_values(|b: Vec<u8>| b@)
}

/// A copy of each byte string in `list`.
pub fn copy_byte_strings(list: &Vec<Vec<u8>>) -> (copy: Vec<Vec<u8>>)
    ensures
        byte_strings(copy@) == byte_strings(list@),
{
    let mut copy: Vec<Vec<u8>> = Vec::new();
    for i in 0..list.len()
        invariant
            copy.len() == i,
            forall|j: int| 0 <= j < i ==> (#[trigger] copy@[j])@ == list@[j]@,
    {
        copy.push(slice_to_vec(list[i].as_slice()));
    }
    assert(byte_strings(copy@) =~= byte_strings(list@));
    copy
}

impl View for TransactionRequest {
    type V = (ChainId, Seq<Seq<u8>>);

    open spec fn view(&self) -> (ChainId, Seq<Seq<u8>>) {
        (self.chain_id, byte_strings(self.transactions@))
    }
}

impl View for XtRequest {
    type V = Seq<(ChainId, Seq<Seq<u8>>)>;

    open spec fn view(&self) -> Seq<(ChainId, Seq<Seq<u8>>)> {
        self.transactions@.map_values(|t: TransactionRequest| t@)
    }
}

impl Default for XtRequest {
    /// The request that asks for nothing.
    fn default() -> (r: XtRequest)
        ensures
            r@ == Seq::<(ChainId, Seq<Seq<u8>>)>::empty(),
    {
        let r = XtRequest { transactions: Vec::new() };
        assert(r@ =~= Seq::empty());
        r
    }
}

/// The elements of `s`, each at its first occurrence only.
pub open spec fn dedup<A>(s: Seq<A>) -> Seq<A>
    decreases s.len(),
{
    if s.len() == 0 {
        Seq::empty()
    } else {
        let rest = dedup(s.drop_last());
        if rest.contains(s.last()) {
            rest
        } else {
            rest.push(s.last())
        }
    }
}

/// `dedup` keeps exactly the elements of its argument, each once.
pub proof fn dedup_properties<A>(s: Seq<A>)
    ensures
        dedup(s).no_duplicates(),
        dedup(s).len() <= s.len(),
        forall|a: A| #[trigger] dedup(s).contains(a) <==> s.contains(a),
    decreases s.len(),
{
    if s.len() > 0 {
        let init = s.drop_last();
        dedup_properties(init);
        let rest = dedup(init);
        assert forall|a: A| #[trigger] dedup(s).contains(a) <==> s.contains(a) by {
            assert(s == init.push(s.last()));
            if s.contains(a) {
                let i = choose|i: int| 0 <= i < s.len() && s[i] == a;
                if i < init.len() {
                    assert(init[i] == a);
                    assert(init.contains(a));
                    assert(rest.contains(a));
                    let j = choose|j: int| 0 <= j < rest.len() && rest[j] == a;
                    assert(dedup(s)[j] == a);
                } else if !rest.contains(s.last()) {
                    assert(dedup(s)[rest.len() as int] == a);
                }
            }
            if dedup(s).contains(a) {
                let j = choose|j: int| 0 <= j < dedup(s).len() && dedup(s)[j] == a;
                if j < rest.len() {
                    assert(rest[j] == a);
                    assert(rest.contains(a));
                    assert(init.contains(a));
                    let i = choose|i: int| 0 <= i < init.len() && init[i] == a;
                    assert(s[i] == a);
                } else {
                    assert(s[s.len() - 1] == a);
                }
            }
        }
    }
}

/// `dedup` keeps the order of first occurrence: of two elements that it keeps, the one
/// that it puts first has occurred before any occurrence of the other.
pub proof fn dedup_keeps_order<A>(s: Seq<A>, a: int, b: int, j: int)
    requires
        0 <= a < b < dedup(s).len(),
        0 <= j < s.len(),
        s[j] == dedup(s)[b],
    ensures
        exists|i: int| 0 <= i < j && s[i] == dedup(s)[a],
    decreases s.len(),
{
    let init = s.drop_last();
    let rest = dedup(init);
    dedup_properties(init);
    dedup_properties(s);
    if b < rest.len() {
        if j < init.len() {
            assert(init[j] == rest[b]);
            dedup_keeps_order(init, a, b, j);
            let i = choose|i: int| 0 <= i < j && init[i] == rest[a];
            assert(s[i] == dedup(s)[a]);
        } else {
            assert(rest.contains(rest[a]));
            assert(init.contains(rest[a]));
            let i = choose|i: int| 0 <= i < init.len() && init[i] == rest[a];
            assert(s[i] == dedup(s)[a]);
        }
    } else {
        assert(rest.contains(rest[a]));
        assert(init.contains(rest[a]));
        let i = choose|i: int| 0 <= i < init.len() && init[i] == rest[a];
        assert(s[i] == dedup(s)[a]);
        if j < init.len() {
            assert(init.contains(init[j]));
            assert(rest.contains(s.last()));
        }
    }
}

/// The content of a request is what its parts hold.
pub proof fn request_view_is_faithful(r: XtRequest, i: int, k: int)
    requires
        0 <= i < r.transactions.len(),
        0 <= k < r.transactions[i].transactions.len(),
    ensures
        r@.len() == r.transactions.len(),
        r@[i].0 == r.transactions[i].chain_id,
        r@[i].1.len() == r.transactions[i].transactions.len(),
        r@[i].1[k] == r.transactions[i].transactions[k]@,
{
}

/// The participants of a request are the chains that it names, each once.
pub proof fn participants_are_the_named_chains(
    request: Seq<(ChainId, Seq<Seq<u8>>)>,
    chain: ChainId,
)
    ensures
        participants(request).no_duplicates(),
        participants(request).contains(chain) <==> exists|i: int|
            0 <= i < request.len() && (#[trigger] request[i]).0 == chain,
{
    let named = request.map_values(|t: (ChainId, Seq<Seq<u8>>)| t.0);
    dedup_properties(named);
    if named.contains(chain) {
        let i = choose|i: int| 0 <= i < named.len() && named[i] == chain;
        assert(request[i].0 == chain);
    }
    if exists|i: int| 0 <= i < request.len() && (#[trigger] request[i]).0 == chain {
        let i = choose|i: int| 0 <= i < request.len() && (#[trigger] request[i]).0 == chain;
        assert(named[i] == chain);
    }
}

/// Participants stand in the order in which the request first names them.
pub proof fn participants_stand_in_order(
    request: Seq<(ChainId, Seq<Seq<u8>>)>,
    a: int,
    b: int,
    j: int,
)
    requires
        0 <= a < b < participants(request).len(),
        0 <= j < request.len(),
        request[j].0 == participants(request)[b],
    ensures
        exists|i: int| 0 <= i < j && (#[trigger] request[i]).0 == participants(request)[a],
{
    let named = request.map_values(|t: (ChainId, Seq<Seq<u8>>)| t.0);
    assert(named[j] == participants(request)[b]);
    dedup_keeps_order(named, a, b, j);
    let i = choose|i: int| 0 <= i < j && named[i] == participants(request)[a];
    assert(request[i].0 == participants(request)[a]);
}

/// Whether `list` holds `chain`.
pub fn contains_chain(list: &Vec<ChainId>, chain: ChainId) -> (found: bool)
    ensures
        found == list@.contains(chain),
{
    for i in 0..list.len()
        invariant
            forall|j: int| 0 <= j < i ==> list@[j] != chain,
    {
        if list[i] == chain {
            assert(list@[i as int] == chain);
            return true;
        }
    }
    false
}

/// The chains that `request` names, each once, in order of first mention.
pub open spec fn participants(request: Seq<(ChainId, Seq<Seq<u8>>)>) -> Seq<ChainId> {
    dedup(request.map_values(|t: (ChainId, Seq<Seq<u8>>)| t.0))
}

/// The chains that `request` names, each once, in order of first mention.
pub fn chains_from_request(request: &XtRequest) -> (chains: Vec<ChainId>)
    ensures
        chains@ == participants(request@),
{
    let ghost named = request@.map_values(|t: (ChainId, Seq<Seq<u8>>)| t.0);
    let mut chains: Vec<ChainId> = Vec::new();
    for i in 0..request.transactions.len()
        invariant
            named == request@.map_values(|t: (ChainId, Seq<Seq<u8>>)| t.0),
            named.len() == request.transactions.len(),
            chains@ == dedup(named.take(i as int)),
    {
        let chain = request.transactions[i].chain_id;
        assert(named.take(i + 1).drop_last() =~= named.take(i as int));
        assert(named.take(i + 1).last() == chain);
        if !contains_chain(&chains, chain) {
            chains.push(chain);
        }
    }
    assert(named.take(named.len() as int) =~= named);
    chains
}

/// A protocol instance: one cross-chain request with its place in the protocol.
#[derive(Clone, Debug, PartialEq, Eq)]
pub struct Instance {
    /// The instance's identifier.
    pub id: InstanceId,
    /// The period in which it was started.
    pub period_id: PeriodId,
    /// Its position within that period.
    pub sequence_number: SequenceNumber,
    /// What it is to run.
    pub xt_request: XtRequest,
}

impl Instance {
    /// The chains that take part in the instance.
    pub fn chains(&self) -> (chains: Vec<ChainId>)
        ensures
            chains@ == participants(self.xt_request@),
    {
        chains_from_request(&self.xt_request)
    }
}

} // verus!
