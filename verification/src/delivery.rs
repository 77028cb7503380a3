//! The delivery of a message, chunk by chunk, as a state machine.
//!
//! The machine decides; its driver acts. [`ChunkedDelivery::poll`] says what
//! is to be done next, and after handing a chunk to the transport the driver
//! tells the machine how that went with [`ChunkedDelivery::report`]. Chunks
//! go out in order and one at a time; the first refusal ends the delivery,
//! with the chunks before it delivered and the chunks after it never offered.

use vstd::prelude::*;
use vstd::utf8::*;
use vstd::string::*;
use crate::chunking::texts_of;

verus! {

/// Why a delivery failed.
#[derive(Debug, PartialEq, Eq)]
pub enum DeliveryError {
    /// The chunk at `index` holds `len` bytes, more than the transport
    /// takes: a single paragraph unit is longer than the limit. The chunk is
    /// not offered to the transport.
    ChunkTooLarge { index: usize, len: usize },
    /// The transport refused the chunk at `index` and said why. The chunks
    /// before it stay delivered.
    Transport { index: usize, reason: String },
}

/// Mathematical value of a [`DeliveryError`].
pub enum DeliveryErrorView {
    ChunkTooLarge { index: nat, len: nat },
    Transport { index: nat, reason: Seq<char> },
}

impl View for DeliveryError {
    type V = DeliveryErrorView;

    open spec fn view(&self) -> DeliveryErrorView {
        match self {
            DeliveryError::ChunkTooLarge { index, len } => DeliveryErrorView::ChunkTooLarge {
                index: *index as nat,
                len: *len as nat,
            },
            DeliveryError::Transport { index, reason } => DeliveryErrorView::Transport {
                index: *index as nat,
                reason: reason@,
            },
        }
    }
}

impl DeliveryError {
    /// A copy of this error.
    pub fn duplicate(&self) -> (copy: DeliveryError)
        ensures
            copy@ == self@,
    {
        match self {
            DeliveryError::ChunkTooLarge { index, len } => DeliveryError::ChunkTooLarge {
                index: *index,
                len: *len,
            },
            DeliveryError::Transport { index, reason } => DeliveryError::Transport {
                index: *index,
                reason: reason.clone(),
            },
        }
    }
}

/// Where a delivery stands.
#[derive(Debug, PartialEq, Eq)]
pub enum DeliveryState {
    /// Nothing has been decided yet.
    Pending,
    /// The chunks so far are delivered; the next decision is due.
    Accumulating,
    /// A chunk has been handed out and its outcome is awaited.
    Flushing,
    /// Every chunk is delivered.
    Done,
    /// The delivery was given up.
    Failed(DeliveryError),
}

/// Mathematical value of a [`DeliveryState`].
pub enum DeliveryStateView {
    Pending,
    Accumulating,
    Flushing,
    Done,
    Failed(DeliveryErrorView),
}

impl View for DeliveryState {
    type V = DeliveryStateView;

    open spec fn view(&self) -> DeliveryStateView {
        match self {
            DeliveryState::Pending => DeliveryStateView::Pending,
            DeliveryState::Accumulating => DeliveryStateView::Accumulating,
            DeliveryState::Flushing => DeliveryStateView::Flushing,
            DeliveryState::Done => DeliveryStateView::Done,
            DeliveryState::Failed(error) => DeliveryStateView::Failed(error@),
        }
    }
}

/// What the driver is to do next.
#[derive(Debug, PartialEq, Eq)]
pub enum DeliveryAction {
    /// Hand this chunk to the transport, then report the outcome.
    Send(String),
    /// A chunk is out and its outcome has not been reported yet.
    AwaitOutcome,
    /// Nothing is left to do: every chunk is delivered.
    Complete,
    /// Stop: the delivery has failed.
    Abort(DeliveryError),
}

/// Mathematical value of a [`DeliveryAction`].
pub enum DeliveryActionView {
    Send(Seq<char>),
    AwaitOutcome,
    Complete,
    Abort(DeliveryErrorView),
}

impl View for DeliveryAction {
    type V = DeliveryActionView;

    open spec fn view(&self) -> DeliveryActionView {
        match self {
            DeliveryAction::Send(chunk) => DeliveryActionView::Send(chunk@),
            DeliveryAction::AwaitOutcome => DeliveryActionView::AwaitOutcome,
            DeliveryAction::Complete => DeliveryActionView::Complete,
            DeliveryAction::Abort(error) => DeliveryActionView::Abort(error@),
        }
    }
}

/// How the transport answered one chunk.
#[derive(Debug, PartialEq, Eq)]
pub enum SendOutcome {
    /// The transport took the chunk.
    Delivered,
    /// The transport refused the chunk, with its reason.
    Rejected(String),
}

/// Mathematical value of a [`SendOutcome`].
pub enum SendOutcomeView {
    Delivered,
    Rejected(Seq<char>),
}

impl View for SendOutcome {
    type V = SendOutcomeView;

    open spec fn view(&self) -> SendOutcomeView {
        match self {
            SendOutcome::Delivered => SendOutcomeView::Delivered,
            SendOutcome::Rejected(reason) => SendOutcomeView::Rejected(reason@),
        }
    }
}

/// Mathematical value of a [`ChunkedDelivery`].
pub struct DeliveryView {
    /// The chunks of the message, in the order in which they go out.
    pub chunks: Seq<Seq<char>>,
    /// The most bytes that the transport takes in one chunk.
    pub max_len: nat,
    /// How many chunks the transport has taken.
    pub sent: nat,
    /// Where the delivery stands.
    pub state: DeliveryStateView,
}

/// What holds of every delivery: the chunks taken are among the planned
/// ones; nothing is taken before the first decision; a chunk that is out is
/// the next planned one and fits the transport; done means all taken.
pub open spec fn well_formed(v: DeliveryView) -> bool {
    &&& v.sent <= v.chunks.len()
    &&& (v.state is Pending ==> v.sent == 0)
    &&& (v.state is Flushing ==> v.sent < v.chunks.len() && encode_utf8(
        v.chunks[v.sent as int],
    ).len() <= v.max_len)
    &&& (v.state is Done ==> v.sent == v.chunks.len())
}

/// The decision of the machine: the delivery after the decision, and the
/// action that the driver is told.
pub open spec fn poll_step(v: DeliveryView) -> (DeliveryView, DeliveryActionView) {
    match v.state {
        DeliveryStateView::Pending | DeliveryStateView::Accumulating => {
            if v.sent >= v.chunks.len() {
                (DeliveryView { state: DeliveryStateView::Done, ..v }, DeliveryActionView::Complete)
            } else if encode_utf8(v.chunks[v.sent as int]).len() > v.max_len {
                let error = DeliveryErrorView::ChunkTooLarge {
                    index: v.sent,
                    len: encode_utf8(v.chunks[v.sent as int]).len(),
                };
                (
                    DeliveryView { state: DeliveryStateView::Failed(error), ..v },
                    DeliveryActionView::Abort(error),
                )
            } else {
                (
                    DeliveryView { state: DeliveryStateView::Flushing, ..v },
                    DeliveryActionView::Send(v.chunks[v.sent as int]),
                )
            }
        },
        DeliveryStateView::Flushing => (v, DeliveryActionView::AwaitOutcome),
        DeliveryStateView::Done => (v, DeliveryActionView::Complete),
        DeliveryStateView::Failed(error) => (v, DeliveryActionView::Abort(error)),
    }
}

/// The delivery after the transport's answer to the chunk that is out. An
/// answer that no chunk is waiting for changes nothing.
pub open spec fn report_step(v: DeliveryView, outcome: SendOutcomeView) -> DeliveryView {
    match v.state {
        DeliveryStateView::Flushing => match outcome {
            SendOutcomeView::Delivered => DeliveryView {
                sent: v.sent + 1,
                state: DeliveryStateView::Accumulating,
                ..v
            },
            SendOutcomeView::Rejected(reason) => DeliveryView {
                state: DeliveryStateView::Failed(
                    DeliveryErrorView::Transport { index: v.sent, reason },
                ),
                ..v
            },
        },
        _ => v,
    }
}

/// The delivery of one message over a transport that bounds the size of a
/// payload.
#[derive(Debug)]
pub struct ChunkedDelivery {
    chunks: Vec<String>,
    max_len: usize,
    sent: usize,
    state: DeliveryState,
}

impl View for ChunkedDelivery {
    type V = DeliveryView;

    closed spec fn view(&self) -> DeliveryView {
        DeliveryView {
            chunks: texts_of(self.chunks@),
            max_len: self.max_len as nat,
            sent: self.sent as nat,
            state: self.state@,
        }
    }
}

impl ChunkedDelivery {
    /// The invariant of a delivery, see [`well_formed`]. It holds of every
    /// delivery at all times.
    pub open spec fn wf(&self) -> bool {
        well_formed(self@)
    }

    #[verifier::type_invariant]
    closed spec fn inv(&self) -> bool {
        well_formed(self@)
    }

    /// A delivery of `chunks`, in this order, with nothing decided yet.
    pub fn new(chunks: Vec<String>, max_len: usize) -> (delivery: ChunkedDelivery)
        ensures
            delivery.wf(),
            delivery@ == (DeliveryView {
                chunks: texts_of(chunks@),
                max_len: max_len as nat,
                sent: 0,
                state: DeliveryStateView::Pending,
            }),
    {
        ChunkedDelivery { chunks, max_len, sent: 0, state: DeliveryState::Pending }
    }

    /// Where the delivery stands.
    pub fn state(&self) -> (state: &DeliveryState)
        ensures
            self.wf(),
            state@ == self@.state,
    {
        proof {
            use_type_invariant(self);
        }
        &self.state
    }

    /// How many chunks the transport has taken.
    pub fn sent(&self) -> (sent: usize)
        ensures
            self.wf(),
            sent == self@.sent,
    {
        proof {
            use_type_invariant(self);
        }
        self.sent
    }

    /// The chunks of the message, in the order in which they go out.
    pub fn chunks(&self) -> (chunks: &Vec<String>)
        ensures
            self.wf(),
            texts_of(chunks@) == self@.chunks,
    {
        proof {
            use_type_invariant(self);
        }
        &self.chunks
    }

    /// The most bytes that the transport takes in one chunk.
    pub fn max_len(&self) -> (max_len: usize)
        ensures
            self.wf(),
            max_len == self@.max_len,
    {
        proof {
            use_type_invariant(self);
        }
        self.max_len
    }

    /// Decides what is to be done next.
    pub fn poll(&mut self) -> (action: DeliveryAction)
        ensures
            old(self).wf(),
            final(self).wf(),
            (final(self)@, action@) == poll_step(old(self)@),
    {
        proof {
            use_type_invariant(&*self);
        }
        let count = self.chunks.len();
        match &self.state {
            DeliveryState::Flushing => DeliveryAction::AwaitOutcome,
            DeliveryState::Done => DeliveryAction::Complete,
            DeliveryState::Failed(error) => DeliveryAction::Abort(error.duplicate()),
            _ => {
                if self.sent >= count {
                    self.state = DeliveryState::Done;
                    DeliveryAction::Complete
                } else {
                    let chunk = &self.chunks[self.sent];
                    let size = chunk.as_str().as_bytes().len();
                    assert(texts_of(self.chunks@)[self.sent as int] == chunk@);
                    if size > self.max_len {
                        let error = DeliveryError::ChunkTooLarge { index: self.sent, len: size };
                        let action = DeliveryAction::Abort(error.duplicate());
                        self.state = DeliveryState::Failed(error);
                        action
                    } else {
                        let action = DeliveryAction::Send(chunk.clone());
                        self.state = DeliveryState::Flushing;
                        action
                    }
                }
            },
        }
    }

    /// Takes note of the transport's answer to the chunk that is out.
    pub fn report(&mut self, outcome: SendOutcome)
        ensures
            old(self).wf(),
            final(self).wf(),
            final(self)@ == report_step(old(self)@, outcome@),
    {
        proof {
            use_type_invariant(&*self);
        }
        let count = self.chunks.len();
        assert(self.sent < count ==> self.sent + 1 <= usize::MAX);
        let flushing = match &self.state {
            DeliveryState::Flushing => true,
            _ => false,
        };
        if flushing {
            match outcome {
                SendOutcome::Delivered => {
                    self.state = DeliveryState::Accumulating;
                    self.sent = self.sent + 1;
                },
                SendOutcome::Rejected(reason) => {
                    self.state = DeliveryState::Failed(
                        DeliveryError::Transport { index: self.sent, reason },
                    );
                },
            }
        }
    }
}

/// The delivery after a run of the driver: for each outcome in turn, one
/// decision and the report of that outcome.
pub open spec fn run(v: DeliveryView, outcomes: Seq<SendOutcomeView>) -> DeliveryView
    decreases outcomes.len(),
{
    if outcomes.len() == 0 {
        v
    } else {
        report_step(poll_step(run(v, outcomes.drop_last())).0, outcomes.last())
    }
}

/// Whether every chunk from `from` up to `to` fits the transport.
pub open spec fn chunks_fit(v: DeliveryView, from: int, to: int) -> bool {
    forall|i: int| from <= i < to ==> encode_utf8(#[trigger] v.chunks[i]).len() <= v.max_len
}

/// No step changes the plan, takes a chunk back or breaks the invariant.
pub proof fn lemma_steps_keep_plan(v: DeliveryView, outcome: SendOutcomeView)
    requires
        well_formed(v),
    ensures
        well_formed(poll_step(v).0),
        well_formed(report_step(v, outcome)),
        poll_step(v).0.chunks == v.chunks && report_step(v, outcome).chunks == v.chunks,
        poll_step(v).0.max_len == v.max_len && report_step(v, outcome).max_len == v.max_len,
        poll_step(v).0.sent == v.sent,
        v.sent <= report_step(v, outcome).sent <= v.sent + 1,
{
}

/// A chunk is handed out only from a state in which none is out; it is the
/// first chunk not yet taken, and it fits the transport.
pub proof fn lemma_send_offers_next_chunk(v: DeliveryView)
    requires
        well_formed(v),
        poll_step(v).1 is Send,
    ensures
        v.state is Pending || v.state is Accumulating,
        v.sent < v.chunks.len(),
        poll_step(v).1 == DeliveryActionView::Send(v.chunks[v.sent as int]),
        encode_utf8(v.chunks[v.sent as int]).len() <= v.max_len,
        poll_step(v).0.state is Flushing,
{
}

/// A delivery that is done or has failed stays as it is, whatever is asked
/// or reported, and hands out no chunk.
pub proof fn lemma_finished_is_final(v: DeliveryView, outcome: SendOutcomeView)
    requires
        v.state is Done || v.state is Failed,
    ensures
        poll_step(v).0 == v,
        report_step(v, outcome) == v,
        v.state is Done ==> poll_step(v).1 is Complete,
        v.state is Failed ==> poll_step(v).1 == DeliveryActionView::Abort(v.state->Failed_0),
{
}

/// A transport that takes every chunk: after as many rounds as there are
/// chunks, all of which fit, every chunk is taken and the next decision is
/// that the delivery is complete.
pub proof fn lemma_run_delivers_in_order(v: DeliveryView, outcomes: Seq<SendOutcomeView>)
    requires
        well_formed(v),
        v.state is Pending,
        outcomes.len() <= v.chunks.len(),
        chunks_fit(v, 0, outcomes.len() as int),
        forall|i: int| 0 <= i < outcomes.len() ==> #[trigger] outcomes[i] is Delivered,
    ensures
        run(v, outcomes).sent == outcomes.len(),
        run(v, outcomes).chunks == v.chunks,
        run(v, outcomes).max_len == v.max_len,
        outcomes.len() == 0 ==> run(v, outcomes) == v,
        outcomes.len() > 0 ==> run(v, outcomes).state is Accumulating,
        outcomes.len() == v.chunks.len() ==> poll_step(run(v, outcomes)).1 is Complete,
    decreases outcomes.len(),
{
    if outcomes.len() > 0 {
        let front = outcomes.drop_last();
        assert forall|i: int| 0 <= i < front.len() implies #[trigger] front[i] is Delivered by {
            assert(front[i] == outcomes[i]);
        }
        lemma_run_delivers_in_order(v, front);
        let before = run(v, front);
        assert(encode_utf8(v.chunks[before.sent as int]).len() <= v.max_len);
        assert(outcomes.last() == outcomes[outcomes.len() - 1]);
    }
}

/// The first refusal ends the delivery: where the transport takes the first
/// `refused` chunks and refuses the next, the delivery has failed with that
/// chunk's position and the transport's reason, exactly `refused` chunks are
/// taken, and whatever the driver does afterwards changes nothing.
pub proof fn lemma_run_stops_at_first_refusal(
    v: DeliveryView,
    outcomes: Seq<SendOutcomeView>,
    refused: int,
    reason: Seq<char>,
)
    requires
        well_formed(v),
        v.state is Pending,
        0 <= refused < outcomes.len(),
        refused < v.chunks.len(),
        chunks_fit(v, 0, refused + 1),
        forall|i: int| 0 <= i < refused ==> #[trigger] outcomes[i] is Delivered,
        outcomes[refused] == SendOutcomeView::Rejected(reason),
    ensures
        run(v, outcomes) == (DeliveryView {
            sent: refused as nat,
            state: DeliveryStateView::Failed(
                DeliveryErrorView::Transport { index: refused as nat, reason },
            ),
            ..v
        }),
    decreases outcomes.len(),
{
    let front = outcomes.drop_last();
    if refused == outcomes.len() - 1 {
        assert forall|i: int| 0 <= i < front.len() implies #[trigger] front[i] is Delivered by {
            assert(front[i] == outcomes[i]);
        }
        lemma_run_delivers_in_order(v, front);
        let before = run(v, front);
        assert(encode_utf8(v.chunks[before.sent as int]).len() <= v.max_len);
        assert(outcomes.last() == outcomes[refused]);
    } else {
        assert(front[refused] == outcomes[refused]);
        assert forall|i: int| 0 <= i < refused implies #[trigger] front[i] is Delivered by {
            assert(front[i] == outcomes[i]);
        }
        lemma_run_stops_at_first_refusal(v, front, refused, reason);
        lemma_finished_is_final(run(v, front), outcomes.last());
    }
}

/// A chunk that does not fit ends the delivery before it reaches the
/// transport: where the transport takes the chunks before it, the decision
/// that follows fails the delivery with that chunk's position and size.
pub proof fn lemma_run_stops_at_oversized_chunk(v: DeliveryView, outcomes: Seq<SendOutcomeView>)
    requires
        well_formed(v),
        v.state is Pending,
        outcomes.len() < v.chunks.len(),
        chunks_fit(v, 0, outcomes.len() as int),
        encode_utf8(v.chunks[outcomes.len() as int]).len() > v.max_len,
        forall|i: int| 0 <= i < outcomes.len() ==> #[trigger] outcomes[i] is Delivered,
    ensures
        poll_step(run(v, outcomes)) == ({
            let error = DeliveryErrorView::ChunkTooLarge {
                index: outcomes.len(),
                len: encode_utf8(v.chunks[outcomes.len() as int]).len(),
            };
            (
                DeliveryView { sent: outcomes.len(), state: DeliveryStateView::Failed(error), ..v },
                DeliveryActionView::Abort(error),
            )
        }),
{
    lemma_run_delivers_in_order(v, outcomes);
}

} // verus!
