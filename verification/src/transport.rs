//! The proof transport protocol as state machines: what a prover sends and in
//! which order, what a verifier's connection expects next, and how the shared
//! tally decides when the process is done. The caller performs the I/O that an
//! action names and reports back what happened.

use crate::framing::{
    encode_frame, frame_of, parse_frame, FramingError, ParsedFrame, MAX_PAYLOAD_LEN,
};
use crate::records::{
    lemma_record_round_trip, parse_record, record_bytes, ProofRecord, ResultRecord,
    SerializationError,
};
use vstd::prelude::*;

verus! {

/// Where a prover is in its single send cycle.
#[derive(Clone, Copy, Debug, PartialEq, Eq, Structural)]
pub enum ProverState {
    Idle,
    Connected,
    ProofFrameSent,
    ResultFrameSent,
    Closed,
}

/// What a prover has to do next.
#[derive(Clone, Copy, Debug, PartialEq, Eq, Structural)]
pub enum ProverAction {
    /// Open the byte stream to the verifier.
    Connect,
    /// Write the frame of the proof.
    SendProofFrame,
    /// Write the frame of the result record.
    SendResultFrame,
    /// Close the stream.
    Close,
    /// Nothing is left to do.
    Done,
}

/// The stream could not be opened or written.
#[derive(Clone, Copy, Debug, PartialEq, Eq, Structural)]
pub struct ConnectionError {
    /// The state in which the failure struck.
    pub during: ProverState,
}

/// The state that follows when the pending action has succeeded.
pub open spec fn prover_successor(state: ProverState) -> ProverState {
    match state {
        ProverState::Idle => ProverState::Connected,
        ProverState::Connected => ProverState::ProofFrameSent,
        ProverState::ProofFrameSent => ProverState::ResultFrameSent,
        ProverState::ResultFrameSent => ProverState::Closed,
        ProverState::Closed => ProverState::Closed,
    }
}

/// The action that is pending in a state.
pub open spec fn prover_pending(state: ProverState) -> ProverAction {
    match state {
        ProverState::Idle => ProverAction::Connect,
        ProverState::Connected => ProverAction::SendProofFrame,
        ProverState::ProofFrameSent => ProverAction::SendResultFrame,
        ProverState::ResultFrameSent => ProverAction::Close,
        ProverState::Closed => ProverAction::Done,
    }
}

/// Everything a prover puts on the wire: the frame of the proof followed by
/// the frame of the result record.
pub open spec fn prover_stream(proof: Seq<u8>, result: ResultRecord) -> Seq<u8> {
    frame_of(proof) + frame_of(record_bytes(result))
}

/// The prover's side of one proof-and-send cycle.
#[derive(Debug)]
pub struct ProverSession {
    state: ProverState,
    proof_frame: Vec<u8>,
    result_frame: Vec<u8>,
}

impl ProverSession {
    /// Where the session is.
    pub closed spec fn state(self) -> ProverState {
        self.state
    }

    /// The frame that carries the proof.
    pub closed spec fn proof_frame(self) -> Seq<u8> {
        self.proof_frame@
    }

    /// The frame that carries the result record.
    pub closed spec fn result_frame(self) -> Seq<u8> {
        self.result_frame@
    }

    /// The bytes that are on the wire once every action up to `state` has
    /// succeeded.
    pub open spec fn written_in(self, state: ProverState) -> Seq<u8> {
        match state {
            ProverState::Idle => Seq::empty(),
            ProverState::Connected => Seq::empty(),
            ProverState::ProofFrameSent => self.proof_frame(),
            _ => self.proof_frame() + self.result_frame(),
        }
    }

    /// The bytes that the action pending in `state` writes.
    pub open spec fn bytes_due(self, state: ProverState) -> Seq<u8> {
        match prover_pending(state) {
            ProverAction::SendProofFrame => self.proof_frame(),
            ProverAction::SendResultFrame => self.result_frame(),
            _ => Seq::empty(),
        }
    }

    /// Prepares both frames. A proof too long for a length prefix is
    /// rejected before anything is sent.
    pub fn new(proof: &ProofRecord, result: &ResultRecord) -> (r: Result<
        ProverSession,
        FramingError,
    >)
        ensures
            match r {
                Ok(session) => {
                    &&& proof.bytes@.len() <= MAX_PAYLOAD_LEN
                    &&& session.state() == ProverState::Idle
                    &&& session.proof_frame() == frame_of(proof.bytes@)
                    &&& session.result_frame() == frame_of(record_bytes(*result))
                },
                Err(e) => proof.bytes@.len() > MAX_PAYLOAD_LEN && e
                    == FramingError::PayloadTooLarge,
            },
    {
        let proof_frame = match encode_frame(proof.bytes.as_slice()) {
            Ok(frame) => frame,
            Err(e) => {
                return Err(e);
            },
        };
        let payload = result.encode();
        let result_frame = encode_frame(payload.as_slice()).unwrap();
        Ok(ProverSession { state: ProverState::Idle, proof_frame, result_frame })
    }

    /// The current state.
    pub fn current_state(&self) -> (s: ProverState)
        ensures
            s == self.state(),
    {
        self.state
    }

    /// The action that is pending.
    pub fn next_action(&self) -> (a: ProverAction)
        ensures
            a == prover_pending(self.state()),
    {
        match self.state {
            ProverState::Idle => ProverAction::Connect,
            ProverState::Connected => ProverAction::SendProofFrame,
            ProverState::ProofFrameSent => ProverAction::SendResultFrame,
            ProverState::ResultFrameSent => ProverAction::Close,
            ProverState::Closed => ProverAction::Done,
        }
    }

    /// The bytes that the pending action writes: a whole frame when a frame
    /// is due, nothing otherwise.
    pub fn pending_bytes(&self) -> (bytes: &[u8])
        ensures
            bytes@ == self.bytes_due(self.state()),
    {
        match self.state {
            ProverState::Connected => self.proof_frame.as_slice(),
            ProverState::ProofFrameSent => self.result_frame.as_slice(),
            _ => {
                let empty: &[u8] = &[];
                empty
            },
        }
    }

    /// Records that the pending action has succeeded. The session moves to
    /// the next state, strictly in order.
    pub fn on_success(&mut self)
        ensures
            final(self).state() == prover_successor(old(self).state()),
            final(self).proof_frame() == old(self).proof_frame(),
            final(self).result_frame() == old(self).result_frame(),
    {
        let next = match self.state {
            ProverState::Idle => ProverState::Connected,
            ProverState::Connected => ProverState::ProofFrameSent,
            ProverState::ProofFrameSent => ProverState::ResultFrameSent,
            ProverState::ResultFrameSent => ProverState::Closed,
            ProverState::Closed => ProverState::Closed,
        };
        self.state = next;
    }

    /// Records that the pending action has failed. Nothing is retried: the
    /// session is closed and the failure is handed back.
    pub fn on_failure(&mut self) -> (e: ConnectionError)
        ensures
            e.during == old(self).state(),
            final(self).state() == ProverState::Closed,
            final(self).proof_frame() == old(self).proof_frame(),
            final(self).result_frame() == old(self).result_frame(),
    {
        let during = self.state;
        self.state = ProverState::Closed;
        ConnectionError { during }
    }
}

/// Strict sequencing: each success writes exactly the bytes that were due, so
/// what is on the wire in a state is what was there before plus the pending
/// bytes, and a session that runs to the end has written the proof frame
/// followed by the result frame.
pub proof fn lemma_prover_writes_in_order(session: ProverSession, state: ProverState)
    ensures
        session.written_in(prover_successor(state)) == session.written_in(state)
            + session.bytes_due(state),
        session.written_in(ProverState::Closed) == session.proof_frame() + session.result_frame(),
{
    assert(session.written_in(prover_successor(state)) =~= session.written_in(state)
        + session.bytes_due(state));
}

/// Where a verifier's connection is.
#[derive(Clone, Copy, Debug, PartialEq, Eq, Structural)]
pub enum ConnectionState {
    Accepted,
    ProofFrameRead,
    ResultFrameRead,
    Tallied,
    ConnectionClosed,
    ProcessTerminated,
}

/// What a verifier's connection has to do next.
#[derive(Clone, Copy, Debug, PartialEq, Eq, Structural)]
pub enum ConnectionAction {
    /// Read one frame: four prefix bytes, then the announced payload.
    ReadFrame,
    /// Take the lock on the shared state and tally the result.
    Tally,
    /// Let the connection's task end.
    Close,
    /// End the whole process.
    Terminate,
}

/// Why a connection was given up.
#[derive(Clone, Copy, Debug, PartialEq, Eq, Structural)]
pub enum ConnectionFailure {
    Framing(FramingError),
    Serialization(SerializationError),
}

/// What a frame held.
#[derive(Clone, Debug, PartialEq, Eq)]
pub enum FrameContent {
    Proof(ProofRecord),
    Result(ResultRecord),
}

/// The action that is pending in a state.
pub open spec fn connection_pending(state: ConnectionState) -> ConnectionAction {
    match state {
        ConnectionState::Accepted => ConnectionAction::ReadFrame,
        ConnectionState::ProofFrameRead => ConnectionAction::ReadFrame,
        ConnectionState::ResultFrameRead => ConnectionAction::Tally,
        ConnectionState::Tallied => ConnectionAction::Close,
        ConnectionState::ConnectionClosed => ConnectionAction::Close,
        ConnectionState::ProcessTerminated => ConnectionAction::Terminate,
    }
}

/// One accepted connection of the verifier.
#[derive(Clone, Copy, Debug, PartialEq, Eq, Structural)]
pub struct Connection {
    pub state: ConnectionState,
    /// The result record, once its frame has been read.
    pub result: Option<ResultRecord>,
}

/// The connection after a frame with the given payload has been read.
///
/// The first frame is the proof and is taken as it is. The second must decode
/// to a result record; a payload that does not closes the connection. A frame
/// in any other state changes nothing.
pub open spec fn after_frame(c: Connection, payload: Seq<u8>) -> Connection {
    match c.state {
        ConnectionState::Accepted => Connection {
            state: ConnectionState::ProofFrameRead,
            result: None,
        },
        ConnectionState::ProofFrameRead => match parse_record(payload) {
            Some(record) => Connection {
                state: ConnectionState::ResultFrameRead,
                result: Some(record),
            },
            None => Connection { state: ConnectionState::ConnectionClosed, result: None },
        },
        _ => c,
    }
}

/// The connection after its tally has been taken.
pub open spec fn after_tally(c: Connection, outcome: TallyOutcome) -> Connection {
    match c.state {
        ConnectionState::ResultFrameRead => Connection {
            state: match outcome {
                TallyOutcome::Continue => ConnectionState::Tallied,
                TallyOutcome::Terminate { .. } => ConnectionState::ProcessTerminated,
            },
            result: c.result,
        },
        _ => c,
    }
}

impl Connection {
    /// A freshly accepted connection.
    pub fn accepted() -> (c: Connection)
        ensures
            c == (Connection { state: ConnectionState::Accepted, result: None }),
    {
        Connection { state: ConnectionState::Accepted, result: None }
    }

    /// The action that is pending.
    pub fn next_action(&self) -> (a: ConnectionAction)
        ensures
            a == connection_pending(self.state),
    {
        match self.state {
            ConnectionState::Accepted => ConnectionAction::ReadFrame,
            ConnectionState::ProofFrameRead => ConnectionAction::ReadFrame,
            ConnectionState::ResultFrameRead => ConnectionAction::Tally,
            ConnectionState::Tallied => ConnectionAction::Close,
            ConnectionState::ConnectionClosed => ConnectionAction::Close,
            ConnectionState::ProcessTerminated => ConnectionAction::Terminate,
        }
    }

    /// Takes in the payload of a frame that was read completely.
    ///
    /// Decoding is structural only. The proof's bytes are handed back as a
    /// [`ProofRecord`]; the result payload is decoded into a
    /// [`ResultRecord`], and a payload that does not decode closes this
    /// connection with a [`SerializationError`].
    pub fn on_frame(&mut self, payload: &[u8]) -> (r: Result<FrameContent, SerializationError>)
        requires
            connection_pending(old(self).state) == ConnectionAction::ReadFrame,
        ensures
            *final(self) == after_frame(*old(self), payload@),
            match r {
                Ok(FrameContent::Proof(p)) => old(self).state == ConnectionState::Accepted
                    && p.bytes@ == payload@,
                Ok(FrameContent::Result(record)) => old(self).state
                    == ConnectionState::ProofFrameRead && parse_record(payload@) == Some(record),
                Err(e) => old(self).state == ConnectionState::ProofFrameRead && parse_record(
                    payload@,
                ) is None && e == SerializationError::Malformed,
            },
    {
        match self.state {
            ConnectionState::Accepted => {
                self.state = ConnectionState::ProofFrameRead;
                self.result = None;
                Ok(FrameContent::Proof(ProofRecord::decode(payload)))
            },
            _ => match ResultRecord::decode(payload) {
                Ok(record) => {
                    self.state = ConnectionState::ResultFrameRead;
                    self.result = Some(record);
                    Ok(FrameContent::Result(record))
                },
                Err(e) => {
                    self.state = ConnectionState::ConnectionClosed;
                    self.result = None;
                    Err(e)
                },
            },
        }
    }

    /// Records that the stream ended inside a frame. Only this connection is
    /// given up.
    pub fn on_short_read(&mut self) -> (e: FramingError)
        ensures
            e == FramingError::ShortRead,
            *final(self) == after_short_read(*old(self)),
    {
        self.state = ConnectionState::ConnectionClosed;
        FramingError::ShortRead
    }

    /// Records the outcome of this connection's tally.
    pub fn on_tally(&mut self, outcome: TallyOutcome)
        requires
            old(self).state == ConnectionState::ResultFrameRead,
        ensures
            *final(self) == after_tally(*old(self), outcome),
    {
        self.state = match outcome {
            TallyOutcome::Continue => ConnectionState::Tallied,
            TallyOutcome::Terminate { .. } => ConnectionState::ProcessTerminated,
        };
    }
}

/// The state that all connections of a verifier share.
#[derive(Clone, Copy, Debug, PartialEq, Eq, Structural)]
pub struct ServerAggregateState {
    /// When the first result was tallied, in milliseconds.
    pub first_connection_timestamp: Option<i64>,
    /// How many results have been tallied.
    pub received_count: u32,
}

/// What a tally decided.
#[derive(Clone, Copy, Debug, PartialEq, Eq, Structural)]
pub enum TallyOutcome {
    /// More clients are expected.
    Continue,
    /// The configured number of clients has reported.
    Terminate {
        /// Milliseconds between the first tally and this one.
        elapsed_ms: i128,
    },
}

/// The shared state after one tally at time `now`.
pub open spec fn tallied(state: ServerAggregateState, now: i64) -> ServerAggregateState {
    ServerAggregateState {
        first_connection_timestamp: match state.first_connection_timestamp {
            Some(first) => Some(first),
            None => Some(now),
        },
        received_count: (state.received_count + 1) as u32,
    }
}

/// What one tally at time `now` decides: the process terminates exactly when
/// the count reaches the threshold.
pub open spec fn tally_outcome(
    state: ServerAggregateState,
    now: i64,
    client_count: u32,
) -> TallyOutcome {
    if state.received_count + 1 == client_count {
        TallyOutcome::Terminate {
            elapsed_ms: (now - tallied(state, now).first_connection_timestamp->0) as i128,
        }
    } else {
        TallyOutcome::Continue
    }
}

/// The shared state after `n` tallies, all of which let the process go on.
pub open spec fn tallied_times(state: ServerAggregateState, times: Seq<i64>) -> ServerAggregateState
    decreases times.len(),
{
    if times.len() == 0 {
        state
    } else {
        tallied(tallied_times(state, times.drop_last()), times.last())
    }
}

impl ServerAggregateState {
    /// The empty state of a process that has just started.
    pub fn new() -> (s: ServerAggregateState)
        ensures
            s == (ServerAggregateState { first_connection_timestamp: None, received_count: 0 }),
    {
        ServerAggregateState { first_connection_timestamp: None, received_count: 0 }
    }

    /// Tallies one result at time `now`. To be called with the lock held.
    ///
    /// Sets the first timestamp if none is set, increments the count, and
    /// decides: when the count equals `client_count` the process terminates
    /// and the time since the first tally is reported.
    pub fn tally(&mut self, now: i64, client_count: u32) -> (outcome: TallyOutcome)
        requires
            old(self).received_count < u32::MAX,
        ensures
            *final(self) == tallied(*old(self), now),
            outcome == tally_outcome(*old(self), now, client_count),
    {
        let first = match self.first_connection_timestamp {
            Some(first) => first,
            None => now,
        };
        self.first_connection_timestamp = Some(first);
        self.received_count = self.received_count + 1;
        if self.received_count == client_count {
            TallyOutcome::Terminate { elapsed_ms: (now as i128) - (first as i128) }
        } else {
            TallyOutcome::Continue
        }
    }
}

/// A connection can take its tally when its result has been read and the
/// shared count can still be raised.
pub open spec fn can_tally(c: Connection, shared: ServerAggregateState) -> bool {
    c.state == ConnectionState::ResultFrameRead && shared.received_count < u32::MAX
}

impl Connection {
    /// Takes this connection's tally on the shared state, for any state of
    /// either. To be called with the lock held.
    ///
    /// Where the connection's result has been read and the count can still
    /// be raised, the shared state is tallied once and the connection
    /// records the outcome. Otherwise nothing changes and `None` is handed
    /// back.
    pub fn take_tally(
        &mut self,
        shared: &mut ServerAggregateState,
        now: i64,
        client_count: u32,
    ) -> (r: Option<TallyOutcome>)
        ensures
            can_tally(*old(self), *old(shared)) ==> {
                &&& r == Some(tally_outcome(*old(shared), now, client_count))
                &&& *final(shared) == tallied(*old(shared), now)
                &&& *final(self) == after_tally(
                    *old(self),
                    tally_outcome(*old(shared), now, client_count),
                )
            },
            !can_tally(*old(self), *old(shared)) ==> {
                &&& r is None
                &&& *final(shared) == *old(shared)
                &&& *final(self) == *old(self)
            },
    {
        match self.state {
            ConnectionState::ResultFrameRead => {
                if shared.received_count == u32::MAX {
                    None
                } else {
                    let outcome = shared.tally(now, client_count);
                    self.on_tally(outcome);
                    Some(outcome)
                }
            },
            _ => None,
        }
    }
}

/// Starting from the empty state, the `k`-th tally terminates the process if
/// and only if `k` equals the threshold.
pub proof fn lemma_terminates_exactly_at_threshold(times: Seq<i64>, now: i64, client_count: u32)
    requires
        times.len() < u32::MAX,
    ensures
        tallied_times(
            ServerAggregateState { first_connection_timestamp: None, received_count: 0 },
            times,
        ).received_count == times.len(),
        tally_outcome(
            tallied_times(
                ServerAggregateState { first_connection_timestamp: None, received_count: 0 },
                times,
            ),
            now,
            client_count,
        ) is Terminate <==> times.len() + 1 == client_count,
    decreases times.len(),
{
    if times.len() > 0 {
        lemma_terminates_exactly_at_threshold(times.drop_last(), times.last(), client_count);
    }
}

/// A verifier as a whole: the shared state and every accepted connection.
pub struct ServerModel {
    pub shared: ServerAggregateState,
    pub connections: Seq<Connection>,
}

/// Something that happens on one connection of a verifier.
pub enum ServerEvent {
    /// A frame with this payload was read completely.
    Frame { connection: int, payload: Seq<u8> },
    /// The stream ended inside a frame.
    ShortRead { connection: int },
    /// The connection took the lock and tallied at this time.
    Tally { connection: int, now: i64 },
}

impl ServerEvent {
    /// The connection on which the event happens.
    pub open spec fn connection(self) -> int {
        match self {
            ServerEvent::Frame { connection, .. } => connection,
            ServerEvent::ShortRead { connection } => connection,
            ServerEvent::Tally { connection, .. } => connection,
        }
    }
}

/// The connection after the stream ended inside a frame.
pub open spec fn after_short_read(c: Connection) -> Connection {
    Connection { state: ConnectionState::ConnectionClosed, result: c.result }
}

/// An event is a failure of its connection when it is a short read or a
/// result payload that does not decode.
pub open spec fn is_failure(s: ServerModel, e: ServerEvent) -> bool {
    match e {
        ServerEvent::ShortRead { .. } => true,
        ServerEvent::Frame { connection, payload } => s.connections[connection].state
            == ConnectionState::ProofFrameRead && parse_record(payload) is None,
        ServerEvent::Tally { .. } => false,
    }
}

/// The verifier after one event. Only a tally touches the shared state, and
/// every event touches its own connection alone. A tally that cannot be
/// taken changes nothing.
pub open spec fn server_step(s: ServerModel, client_count: u32, e: ServerEvent) -> ServerModel {
    let i = e.connection();
    let c = s.connections[i];
    match e {
        ServerEvent::Frame { payload, .. } => ServerModel {
            shared: s.shared,
            connections: s.connections.update(i, after_frame(c, payload)),
        },
        ServerEvent::ShortRead { .. } => ServerModel {
            shared: s.shared,
            connections: s.connections.update(i, after_short_read(c)),
        },
        ServerEvent::Tally { now, .. } => if can_tally(c, s.shared) {
            ServerModel {
                shared: tallied(s.shared, now),
                connections: s.connections.update(
                    i,
                    after_tally(c, tally_outcome(s.shared, now, client_count)),
                ),
            }
        } else {
            s
        },
    }
}

/// Isolation: a failure on one connection does not affect another
/// connection's tally.
///
/// The failing connection is closed and is not tallied. The shared state and
/// every other connection are exactly as they were, so a tally that another
/// connection takes after the failure leaves that connection and the shared
/// state as the same tally would have without the failure: where it can be
/// taken it raises the count by exactly one and completes that connection,
/// and where it cannot it is refused either way. This holds for every state
/// of the counter.
pub proof fn lemma_failure_is_isolated(
    s: ServerModel,
    client_count: u32,
    failure: ServerEvent,
    other: int,
    now: i64,
)
    requires
        0 <= failure.connection() < s.connections.len(),
        0 <= other < s.connections.len(),
        other != failure.connection(),
        is_failure(s, failure),
    ensures
        ({
            let failed = server_step(s, client_count, failure);
            let tally = ServerEvent::Tally { connection: other, now };
            &&& failed.connections[failure.connection()].state == ConnectionState::ConnectionClosed
            &&& failed.shared == s.shared
            &&& forall|i: int|
                0 <= i < s.connections.len() && i != failure.connection()
                    ==> failed.connections[i] == s.connections[i]
            &&& server_step(failed, client_count, tally).shared == server_step(
                s,
                client_count,
                tally,
            ).shared
            &&& server_step(failed, client_count, tally).connections[other] == server_step(
                s,
                client_count,
                tally,
            ).connections[other]
            &&& can_tally(s.connections[other], s.shared) ==> {
                let done = server_step(failed, client_count, tally);
                &&& done.shared.received_count == s.shared.received_count + 1
                &&& connection_pending(done.connections[other].state) != ConnectionAction::Tally
                &&& connection_pending(done.connections[other].state) != ConnectionAction::ReadFrame
                &&& done.connections[failure.connection()].state
                    == ConnectionState::ConnectionClosed
            }
        }),
{
}

/// End-to-end round trip: what a prover writes for a proof and a result
/// record is read by a verifier's connection as exactly that proof and that
/// record, with nothing left over.
pub proof fn lemma_transport_round_trip(proof: Seq<u8>, result: ResultRecord)
    requires
        proof.len() <= MAX_PAYLOAD_LEN,
    ensures
        ({
            let stream = prover_stream(proof, result);
            let first = parse_frame(stream);
            &&& first == Some(
                ParsedFrame { payload: proof, consumed: (4 + proof.len()) as nat },
            )
            &&& parse_frame(stream.subrange((4 + proof.len()) as int, stream.len() as int)) == Some(
                ParsedFrame { payload: record_bytes(result), consumed: 32 },
            )
            &&& parse_record(record_bytes(result)) == Some(result)
            &&& stream.len() == 4 + proof.len() + 32
        }),
{
    let payload = record_bytes(result);
    lemma_record_round_trip(result, Seq::empty());
    assert(payload + Seq::<u8>::empty() =~= payload);
    crate::framing::lemma_frame_round_trip(proof, frame_of(payload));
    crate::framing::lemma_frame_round_trip(payload, Seq::empty());
    assert(frame_of(payload) + Seq::<u8>::empty() =~= frame_of(payload));
}

} // verus!
