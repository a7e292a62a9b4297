//! What the coordinator asks of its surroundings.

use std::collections::HashMap;

use vstd::prelude::*;

use crate::mailbox::ProofData;
#[allow(unused_imports)]
use crate::mailbox::{proof_views, ProofDataView};
use crate::messages::Message;
#[allow(unused_imports)]
use crate::messages::MessageView;
use crate::time::Duration;

verus! {

/// A change to one of the publisher's metrics.
#[derive(Clone, Copy, Debug, PartialEq, Eq, Structural)]
pub enum MetricUpdate {
    /// A sidecar has connected.
    ConnectionOpened,
    /// A sidecar has disconnected.
    ConnectionClosed,
    /// A message came in.
    MessageReceived,
    /// A message is being sent out.
    BroadcastSent,
    /// A cross-chain transaction was started.
    XtStarted,
    /// A cross-chain transaction was committed.
    XtCommitted,
    /// A cross-chain transaction was aborted.
    XtAborted,
    /// How long a transaction was undecided.
    DecisionLatency(Duration),
    /// How long it took until all chains had included a transaction.
    BlockInclusionLatency(Duration),
    /// How many transactions the settlement layer confirmed in the period that has
    /// ended.
    XtFinalisedPerPeriod(u64),
    /// A period is being announced.
    PeriodBroadcast,
}

/// Something to be done outside of the coordinator.
#[derive(Debug)]
pub enum Effect {
    /// Update a metric.
    Record(MetricUpdate),
    /// Send a message to every connected sidecar.
    Broadcast(Message),
    /// Send a message to one client.
    Send {
        /// The client.
        client_id: String,
        /// The message.
        message: Message,
    },
    /// Submit a superblock to the settlement layer.
    Submit {
        /// The superblock.
        superblock_number: u64,
        /// The proof of each chain.
        proofs: HashMap<u64, ProofData>,
    },
}

/// The content of an [`Effect`].
#[verifier::ext_equal]
pub enum EffectView {
    /// Update a metric.
    Record(MetricUpdate),
    /// Send a message to every connected sidecar.
    Broadcast(MessageView),
    /// Send a message to one client.
    Send {
        /// The client.
        client_id: Seq<char>,
        /// The message.
        message: MessageView,
    },
    /// Submit a superblock to the settlement layer.
    Submit {
        /// The superblock.
        superblock_number: u64,
        /// The proof of each chain.
        proofs: Map<u64, ProofDataView>,
    },
}

impl View for Effect {
    type V = EffectView;

    open spec fn view(&self) -> EffectView {
        match *self {
            Effect::Record(update) => EffectView::Record(update),
            Effect::Broadcast(message) => EffectView::Broadcast(message@),
            Effect::Send { client_id, message } => EffectView::Send {
                client_id: client_id@,
                message: message@,
            },
            Effect::Submit { superblock_number, proofs } => EffectView::Submit {
                superblock_number,
                proofs: proof_views(proofs@),
            },
        }
    }
}

/// The contents of a list of effects.
pub open spec fn effect_views(effects: Seq<Effect>) -> Seq<EffectView> {
    effects.map_values(|e: Effect| e@)
}

} // verus!
