use vstd::prelude::*;

verus! {

/// Largest payload the WebSocket adapter accepts in one message, the
/// limit its default protocol configuration enforces.
pub const MAX_PAYLOAD_LEN: usize = 32 << 20;

/// Outcome of a send, status-coded: a send never throws.
#[derive(Clone, Copy, PartialEq, Eq, Structural, Debug)]
pub enum SendStatus {
    Sent,
    /// The payload size and the adapter's limit. Non-fatal: the resource
    /// stays alive.
    MaxPacketSizeExceeded(usize, usize),
    ResourceNotFound,
    ResourceNotAvailable,
}

/// Outcome of one drain cycle on a remote.
#[derive(Clone, Copy, PartialEq, Eq, Structural, Debug)]
pub enum ReadStatus {
    /// Nothing more to read now; wait for the next readiness event.
    WaitNextEvent,
    /// The peer closed or a fatal error removed the resource.
    Disconnected,
}

/// The transport-level error classes the adapter distinguishes.
#[derive(Clone, Copy, PartialEq, Eq, Structural, Debug)]
pub enum IoErrorClass {
    WouldBlock,
    ConnectionReset,
    Interrupted,
    Other,
}

/// Classifies a read error: would-block means wait for more readiness;
/// everything else — a reset foremost — disconnects the resource.
pub fn io_error_to_read_status(kind: &IoErrorClass) -> (r: ReadStatus)
    ensures
        r == (if kind is WouldBlock {
            ReadStatus::WaitNextEvent
        } else {
            ReadStatus::Disconnected
        }),
{
    match kind {
        IoErrorClass::WouldBlock => ReadStatus::WaitNextEvent,
        _ => ReadStatus::Disconnected,
    }
}

/// State of one WebSocket remote: either its handshake is still pending,
/// with the payloads sent meanwhile queued in order, or the socket is
/// established.
pub enum RemoteState {
    Handshake { pending: Vec<Vec<u8>> },
    Established,
}

impl RemoteState {
    pub open spec fn is_established(self) -> bool {
        self is Established
    }

    /// The payloads queued behind a pending handshake, oldest first.
    pub open spec fn spec_pending(self) -> Seq<Seq<u8>> {
        match self {
            RemoteState::Handshake { pending } => pending@.map_values(|v: Vec<u8>| v@),
            RemoteState::Established => seq![],
        }
    }

    /// A freshly accepted remote with nothing queued yet.
    pub fn new_handshake() -> (r: RemoteState)
        ensures
            !r.is_established(),
            r.spec_pending() == Seq::<Seq<u8>>::empty(),
    {
        let r = RemoteState::Handshake { pending: Vec::new() };
        proof {
            assert(r.spec_pending() =~= Seq::<Seq<u8>>::empty());
        }
        r
    }
}

/// What the caller of `send` must do after the decision.
#[derive(Clone, Copy, PartialEq, Eq, Structural, Debug)]
pub enum SendPlan {
    /// The payload was queued behind the handshake; report `Sent`. It
    /// goes out when the handshake completes, in queue order.
    Enqueue,
    /// Write the payload as one frame; classify the outcome with
    /// `write_step`.
    Write,
    /// Report `MaxPacketSizeExceeded(len, MAX_PAYLOAD_LEN)`; the
    /// connection stays alive and later sends proceed.
    Reject,
}

/// Decides a send on one remote. Pre-handshake payloads are queued —
/// whatever their size, the queue is flushed before any later send — and
/// reported `Sent`. On an established socket an oversize payload is
/// rejected without touching the state; anything else is written.
pub fn plan_send(state: &mut RemoteState, data: &Vec<u8>) -> (r: SendPlan)
    ensures
        final (state).is_established() == old(state).is_established(),
        old(state).is_established() ==> *final (state) == *old(state) && r == (if data@.len()
            > MAX_PAYLOAD_LEN {
            SendPlan::Reject
        } else {
            SendPlan::Write
        }),
        !old(state).is_established() ==> r == SendPlan::Enqueue && final (state).spec_pending()
            == old(state).spec_pending().push(data@),
{
    match state {
        RemoteState::Handshake { pending } => {
            let ghost before = pending@;
            let mut copy: Vec<u8> = Vec::new();
            let mut i: usize = 0;
            while i < data.len()
                invariant
                    i <= data@.len(),
                    copy@ == data@.subrange(0, i as int),
                decreases data@.len() - i,
            {
                copy.push(data[i]);
                assert(copy@ =~= data@.subrange(0, i + 1 as int));
                i = i + 1;
            }
            assert(copy@ =~= data@);
            pending.push(copy);
            proof {
                assert(pending@.map_values(|v: Vec<u8>| v@) =~= before.map_values(
                    |v: Vec<u8>| v@,
                ).push(data@));
            }
            SendPlan::Enqueue
        },
        RemoteState::Established => {
            if data.len() > MAX_PAYLOAD_LEN {
                SendPlan::Reject
            } else {
                SendPlan::Write
            }
        },
    }
}

/// Outcome of one frame write, as the transport reports it.
#[derive(Clone, Copy, PartialEq, Eq, Structural, Debug)]
pub enum WriteOutcome {
    /// The message was accepted and flushed.
    Accepted,
    /// The socket would block; the frame is buffered.
    WouldBlock,
    /// The message exceeds the protocol's capacity.
    TooLarge,
    /// Any other write error.
    Failed,
}

/// The next move of the blocking-transparent send loop.
#[derive(Clone, Copy, PartialEq, Eq, Structural, Debug)]
pub enum WriteStep {
    Done(SendStatus),
    /// Flush what is buffered and classify again.
    RetryFlush,
}

/// Classifies one write attempt: blocking is transparent (flush and try
/// again), a capacity error becomes the oversize status with the
/// adapter's limit, any other failure reports the resource unusable.
pub fn write_step(outcome: &WriteOutcome, payload_len: usize) -> (r: WriteStep)
    ensures
        outcome is Accepted ==> r == WriteStep::Done(SendStatus::Sent),
        outcome is WouldBlock ==> r == WriteStep::RetryFlush,
        outcome is TooLarge ==> r == WriteStep::Done(
            SendStatus::MaxPacketSizeExceeded(payload_len, MAX_PAYLOAD_LEN),
        ),
        outcome is Failed ==> r == WriteStep::Done(SendStatus::ResourceNotFound),
{
    match outcome {
        WriteOutcome::Accepted => WriteStep::Done(SendStatus::Sent),
        WriteOutcome::WouldBlock => WriteStep::RetryFlush,
        WriteOutcome::TooLarge => WriteStep::Done(
            SendStatus::MaxPacketSizeExceeded(payload_len, MAX_PAYLOAD_LEN),
        ),
        WriteOutcome::Failed => WriteStep::Done(SendStatus::ResourceNotFound),
    }
}

/// Outcome of driving a handshake once, as the protocol layer reports it.
#[derive(Clone, Copy, PartialEq, Eq, Structural, Debug)]
pub enum HandshakeOutcome {
    Finished,
    Interrupted,
    Failed,
}

/// What follows one handshake step.
pub enum HandshakeStep {
    /// Established. Write these payloads now, in exactly this order: the
    /// sends queued before completion go out first-in first-out.
    Flush(Vec<Vec<u8>>),
    /// Still pending, queue kept; wait for the next readiness event.
    Wait,
    /// The handshake failed; disconnect and remove the resource.
    Disconnect,
}

/// Drives a pending handshake one step when readiness fires.
pub fn handshake_step(state: &mut RemoteState, outcome: &HandshakeOutcome) -> (r: HandshakeStep)
    requires
        !old(state).is_established(),
    ensures
        outcome is Finished ==> final (state).is_established() && (r matches HandshakeStep::Flush(
            v,
        ) && v@.map_values(|p: Vec<u8>| p@) == old(state).spec_pending()),
        outcome is Interrupted ==> *final (state) == *old(state) && r is Wait,
        outcome is Failed ==> *final (state) == *old(state) && r is Disconnect,
{
    match outcome {
        HandshakeOutcome::Finished => {
            let mut taken = RemoteState::Established;
            core::mem::swap(state, &mut taken);
            match taken {
                RemoteState::Handshake { pending } => HandshakeStep::Flush(pending),
                RemoteState::Established => unreached(),
            }
        },
        HandshakeOutcome::Interrupted => HandshakeStep::Wait,
        HandshakeOutcome::Failed => HandshakeStep::Disconnect,
    }
}

/// The state of a remote accepted at a listener, by how far the
/// handshake got synchronously: done, pending with an empty send queue,
/// or failed — then no resource is created at all.
pub fn accepted_remote_state(outcome: &HandshakeOutcome) -> (r: Option<RemoteState>)
    ensures
        outcome is Finished ==> (r matches Some(s) && s.is_established()),
        outcome is Interrupted ==> (r matches Some(s) && !s.is_established() && s.spec_pending()
            == Seq::<Seq<u8>>::empty()),
        outcome is Failed ==> r is None,
{
    match outcome {
        HandshakeOutcome::Finished => Some(RemoteState::Established),
        HandshakeOutcome::Interrupted => Some(RemoteState::new_handshake()),
        HandshakeOutcome::Failed => None,
    }
}

/// The synchronous connect loop retries while the handshake is
/// interrupted and stops once it finished. A failure during connect is
/// outside this decision and handled by the caller as an error.
pub fn connect_handshake_done(outcome: &HandshakeOutcome) -> (r: bool)
    requires
        !(outcome is Failed),
    ensures
        r == (outcome is Finished),
{
    match outcome {
        HandshakeOutcome::Finished => true,
        _ => false,
    }
}

/// One item read from an established socket.
pub enum WsInput {
    /// A binary message: one application payload.
    Binary(Vec<u8>),
    /// The peer sent a close frame.
    Close,
    /// Any other message kind (text, ping, pong): protocol traffic the
    /// adapter skips.
    Control,
    /// A transport error of the given class.
    TransportError(IoErrorClass),
    /// A protocol violation.
    ProtocolError,
}

/// The next move of the drain loop in `receive`.
pub enum ReceiveStep {
    /// Hand this payload to the data callback, then keep draining.
    Deliver(Vec<u8>),
    /// Keep draining without delivering.
    Skip,
    /// Stop draining with this status.
    Stop(ReadStatus),
}

/// Classifies one read on an established remote: binary payloads are
/// delivered, control traffic is skipped, a close or any fatal error
/// stops the drain as a disconnection, would-block stops it until the
/// next readiness event.
pub fn receive_step(input: WsInput) -> (r: ReceiveStep)
    ensures
        input matches WsInput::Binary(d) ==> r == ReceiveStep::Deliver(d),
        input is Close ==> r == ReceiveStep::Stop(ReadStatus::Disconnected),
        input is Control ==> r is Skip,
        input matches WsInput::TransportError(k) ==> r == ReceiveStep::Stop(
            if k is WouldBlock {
                ReadStatus::WaitNextEvent
            } else {
                ReadStatus::Disconnected
            },
        ),
        input is ProtocolError ==> r == ReceiveStep::Stop(ReadStatus::Disconnected),
{
    match input {
        WsInput::Binary(d) => ReceiveStep::Deliver(d),
        WsInput::Close => ReceiveStep::Stop(ReadStatus::Disconnected),
        WsInput::Control => ReceiveStep::Skip,
        WsInput::TransportError(k) => ReceiveStep::Stop(io_error_to_read_status(&k)),
        WsInput::ProtocolError => ReceiveStep::Stop(ReadStatus::Disconnected),
    }
}

} // verus!
