use zk_mlp::framing::{encode_frame, read_frame, FramingError};
use zk_mlp::records::{ProofRecord, ResultRecord, SerializationError, RESULT_RECORD_LEN};
use zk_mlp::transport::{
    Connection, ConnectionAction, ConnectionError, ConnectionState, FrameContent, ProverAction,
    ProverSession, ProverState, ServerAggregateState, TallyOutcome,
};

fn sample_record() -> ResultRecord {
    ResultRecord {
        public_output: 0x0102_0304_0506_0708_090a_0b0c_0d0e_0f10,
        call_count: 0x1112_1314_1516_1718,
        accumulated_time_bits: 1.5f32.to_bits(),
    }
}

fn sample_record_bytes() -> Vec<u8> {
    vec![
        0x10, 0x0f, 0x0e, 0x0d, 0x0c, 0x0b, 0x0a, 0x09, 0x08, 0x07, 0x06, 0x05, 0x04, 0x03, 0x02,
        0x01, 0x18, 0x17, 0x16, 0x15, 0x14, 0x13, 0x12, 0x11, 0x00, 0x00, 0xc0, 0x3f,
    ]
}

#[test]
fn result_record_has_a_fixed_little_endian_layout() {
    assert_eq!(RESULT_RECORD_LEN, 28);
    assert_eq!(sample_record().encode(), sample_record_bytes());
    let zero = ResultRecord { public_output: 0, call_count: 0, accumulated_time_bits: 0 };
    assert_eq!(zero.encode(), vec![0u8; 28]);
    let full = ResultRecord {
        public_output: u128::MAX,
        call_count: u64::MAX,
        accumulated_time_bits: u32::MAX,
    };
    assert_eq!(full.encode(), vec![0xffu8; 28]);
}

#[test]
fn result_record_is_encoded_like_a_record_with_a_float() {
    let record = sample_record();
    let with_float: (u128, u64, f32) = (record.public_output, record.call_count, 1.5f32);
    assert_eq!(record.encode(), bincode::serialize(&with_float).unwrap());
    let back: (u128, u64, f32) = bincode::deserialize(&record.encode()).unwrap();
    assert_eq!(back, with_float);
}

#[test]
fn result_record_round_trip() {
    for record in [
        sample_record(),
        ResultRecord { public_output: 3, call_count: 17, accumulated_time_bits: 0.25f32.to_bits() },
        ResultRecord { public_output: u128::MAX, call_count: 0, accumulated_time_bits: u32::MAX },
    ] {
        assert_eq!(ResultRecord::decode(&record.encode()), Ok(record));
    }
    assert_eq!(ResultRecord::decode(&sample_record_bytes()), Ok(sample_record()));
}

#[test]
fn result_record_ignores_trailing_bytes() {
    let mut bytes = sample_record_bytes();
    bytes.extend_from_slice(&[1, 2, 3]);
    assert_eq!(ResultRecord::decode(&bytes), Ok(sample_record()));
}

#[test]
fn short_result_payload_is_malformed() {
    assert_eq!(ResultRecord::decode(&[]), Err(SerializationError::Malformed));
    assert_eq!(
        ResultRecord::decode(&sample_record_bytes()[..27]),
        Err(SerializationError::Malformed)
    );
    assert_eq!(ResultRecord::decode(&[0u8; 16]), Err(SerializationError::Malformed));
}

#[test]
fn proof_record_is_taken_as_it_is() {
    assert_eq!(ProofRecord::decode(&[1, 2, 3]), ProofRecord { bytes: vec![1, 2, 3] });
    assert_eq!(ProofRecord::decode(&[]), ProofRecord { bytes: vec![] });
}

#[test]
fn prover_sends_proof_then_result_then_closes() {
    let proof = ProofRecord { bytes: vec![9, 8, 7, 6, 5] };
    let mut session = ProverSession::new(&proof, &sample_record()).unwrap();
    let mut wire: Vec<u8> = Vec::new();
    let mut actions = Vec::new();
    let mut states = vec![session.current_state()];
    loop {
        let action = session.next_action();
        actions.push(action);
        if action == ProverAction::Done {
            break;
        }
        wire.extend_from_slice(session.pending_bytes());
        session.on_success();
        states.push(session.current_state());
    }
    assert_eq!(
        actions,
        vec![
            ProverAction::Connect,
            ProverAction::SendProofFrame,
            ProverAction::SendResultFrame,
            ProverAction::Close,
            ProverAction::Done,
        ]
    );
    assert_eq!(
        states,
        vec![
            ProverState::Idle,
            ProverState::Connected,
            ProverState::ProofFrameSent,
            ProverState::ResultFrameSent,
            ProverState::Closed,
        ]
    );
    let mut expected = encode_frame(&proof.bytes).unwrap();
    expected.extend_from_slice(&encode_frame(&sample_record_bytes()).unwrap());
    assert_eq!(wire, expected);
    assert_eq!(&wire[..9], &[0, 0, 0, 5, 9, 8, 7, 6, 5]);
    assert_eq!(&wire[9..13], &[0, 0, 0, 28]);
    // Nothing more is due once the session is closed.
    assert!(session.pending_bytes().is_empty());
    session.on_success();
    assert_eq!(session.current_state(), ProverState::Closed);
}

#[test]
fn prover_failure_is_fatal() {
    let proof = ProofRecord { bytes: vec![1] };
    let mut refused = ProverSession::new(&proof, &sample_record()).unwrap();
    assert_eq!(refused.on_failure(), ConnectionError { during: ProverState::Idle });
    assert_eq!(refused.next_action(), ProverAction::Done);

    let mut broken = ProverSession::new(&proof, &sample_record()).unwrap();
    broken.on_success();
    broken.on_success();
    assert_eq!(broken.on_failure(), ConnectionError { during: ProverState::ProofFrameSent });
    assert_eq!(broken.current_state(), ProverState::Closed);
    assert!(broken.pending_bytes().is_empty());
}

#[test]
fn what_the_prover_writes_the_verifier_reads() {
    let proof = ProofRecord { bytes: (0..=255u8).collect() };
    let record = sample_record();
    let mut session = ProverSession::new(&proof, &record).unwrap();
    let mut wire: Vec<u8> = Vec::new();
    while session.next_action() != ProverAction::Done {
        wire.extend_from_slice(session.pending_bytes());
        session.on_success();
    }

    let mut connection = Connection::accepted();
    assert_eq!(connection.next_action(), ConnectionAction::ReadFrame);
    let (first, used) = read_frame(&wire).unwrap();
    assert_eq!(connection.on_frame(&first), Ok(FrameContent::Proof(proof)));
    assert_eq!(connection.state, ConnectionState::ProofFrameRead);
    assert_eq!(connection.next_action(), ConnectionAction::ReadFrame);
    let (second, used_again) = read_frame(&wire[used..]).unwrap();
    assert_eq!(connection.on_frame(&second), Ok(FrameContent::Result(record)));
    assert_eq!(connection.state, ConnectionState::ResultFrameRead);
    assert_eq!(connection.result, Some(record));
    assert_eq!(connection.next_action(), ConnectionAction::Tally);
    assert_eq!(used + used_again, wire.len());
}

#[test]
fn tally_sets_the_first_timestamp_once_and_counts() {
    let mut shared = ServerAggregateState::new();
    assert_eq!(shared.first_connection_timestamp, None);
    assert_eq!(shared.received_count, 0);
    assert_eq!(shared.tally(1_000, 5), TallyOutcome::Continue);
    assert_eq!(shared.first_connection_timestamp, Some(1_000));
    assert_eq!(shared.received_count, 1);
    assert_eq!(shared.tally(2_500, 5), TallyOutcome::Continue);
    assert_eq!(shared.first_connection_timestamp, Some(1_000));
    assert_eq!(shared.received_count, 2);
}

#[test]
fn scenario_three_clients_terminate_the_process() {
    let mut shared = ServerAggregateState::new();
    let mut connections = [Connection::accepted(); 3];
    let times = [10_000i64, 10_250, 12_345];
    for (i, connection) in connections.iter_mut().enumerate() {
        assert!(connection.on_frame(&[i as u8; 40]).is_ok());
        assert!(connection.on_frame(&sample_record_bytes()).is_ok());
        assert_eq!(connection.next_action(), ConnectionAction::Tally);
        let outcome = shared.tally(times[i], 3);
        connection.on_tally(outcome);
        if i < 2 {
            // After one and after two clients the server keeps listening.
            assert_eq!(outcome, TallyOutcome::Continue);
            assert_eq!(connection.state, ConnectionState::Tallied);
            assert_eq!(connection.next_action(), ConnectionAction::Close);
        } else {
            assert_eq!(outcome, TallyOutcome::Terminate { elapsed_ms: 2_345 });
            assert_eq!(connection.state, ConnectionState::ProcessTerminated);
            assert_eq!(connection.next_action(), ConnectionAction::Terminate);
        }
        assert_eq!(shared.received_count, i as u32 + 1);
    }
    assert_eq!(shared.first_connection_timestamp, Some(10_000));
}

#[test]
fn single_client_terminates_at_once() {
    let mut shared = ServerAggregateState::new();
    assert_eq!(shared.tally(77, 1), TallyOutcome::Terminate { elapsed_ms: 0 });
    assert_eq!(shared.received_count, 1);
}

#[test]
fn elapsed_time_cannot_overflow() {
    let mut shared = ServerAggregateState::new();
    assert_eq!(shared.tally(i64::MIN, 2), TallyOutcome::Continue);
    assert_eq!(
        shared.tally(i64::MAX, 2),
        TallyOutcome::Terminate { elapsed_ms: i64::MAX as i128 - i64::MIN as i128 }
    );
}

#[test]
fn threshold_of_zero_is_never_reached() {
    let mut shared = ServerAggregateState::new();
    for now in 0..100 {
        assert_eq!(shared.tally(now, 0), TallyOutcome::Continue);
    }
    assert_eq!(shared.received_count, 100);
}

#[test]
fn failing_connection_leaves_the_others_alone() {
    let mut shared = ServerAggregateState::new();
    let mut failing = Connection::accepted();
    let mut healthy = Connection::accepted();

    assert!(failing.on_frame(&[1, 2, 3]).is_ok());
    assert!(healthy.on_frame(&[4, 5, 6]).is_ok());
    assert!(healthy.on_frame(&sample_record_bytes()).is_ok());

    // The first client disconnects in the middle of its second frame.
    let before = shared;
    let healthy_before = healthy;
    assert_eq!(failing.on_short_read(), FramingError::ShortRead);
    assert_eq!(failing.state, ConnectionState::ConnectionClosed);
    assert_eq!(failing.next_action(), ConnectionAction::Close);
    assert_eq!(shared, before);
    assert_eq!(healthy, healthy_before);

    // The second one completes its tally all the same.
    let outcome = shared.tally(500, 1);
    healthy.on_tally(outcome);
    assert_eq!(outcome, TallyOutcome::Terminate { elapsed_ms: 0 });
    assert_eq!(healthy.state, ConnectionState::ProcessTerminated);
    assert_eq!(shared.received_count, 1);
}

#[test]
fn undecodable_result_closes_only_its_connection() {
    let mut connection = Connection::accepted();
    assert!(connection.on_frame(&[0u8; 10]).is_ok());
    assert_eq!(connection.on_frame(&[0u8; 27]), Err(SerializationError::Malformed));
    assert_eq!(connection.state, ConnectionState::ConnectionClosed);
    assert_eq!(connection.result, None);
    assert_eq!(connection.next_action(), ConnectionAction::Close);
}

#[test]
fn short_read_before_any_frame() {
    let mut connection = Connection::accepted();
    assert_eq!(connection.on_short_read(), FramingError::ShortRead);
    assert_eq!(connection.state, ConnectionState::ConnectionClosed);
    assert_eq!(connection.result, None);
}

#[test]
fn take_tally_is_refused_when_it_cannot_be_taken() {
    // No result has been read yet.
    let mut shared = ServerAggregateState::new();
    let mut early = Connection::accepted();
    assert_eq!(early.take_tally(&mut shared, 5, 1), None);
    assert_eq!(early, Connection::accepted());
    assert_eq!(shared, ServerAggregateState::new());

    // The count cannot be raised any further.
    let mut full = ServerAggregateState {
        first_connection_timestamp: Some(1),
        received_count: u32::MAX,
    };
    let mut ready = Connection::accepted();
    assert!(ready.on_frame(&[1]).is_ok());
    assert!(ready.on_frame(&sample_record_bytes()).is_ok());
    let before = ready;
    assert_eq!(ready.take_tally(&mut full, 9, 0), None);
    assert_eq!(ready, before);
    assert_eq!(full.received_count, u32::MAX);
    assert_eq!(full.first_connection_timestamp, Some(1));
}

#[test]
fn take_tally_counts_once_and_completes_the_connection() {
    let mut shared = ServerAggregateState::new();
    let mut failing = Connection::accepted();
    let mut first = Connection::accepted();
    let mut second = Connection::accepted();
    for connection in [&mut first, &mut second] {
        assert!(connection.on_frame(&[7, 7]).is_ok());
        assert!(connection.on_frame(&sample_record_bytes()).is_ok());
    }
    assert!(failing.on_frame(&[7]).is_ok());
    assert_eq!(failing.on_short_read(), FramingError::ShortRead);
    // The failed connection is never tallied.
    assert_eq!(failing.take_tally(&mut shared, 1, 2), None);
    assert_eq!(shared.received_count, 0);

    assert_eq!(first.take_tally(&mut shared, 100, 2), Some(TallyOutcome::Continue));
    assert_eq!(first.state, ConnectionState::Tallied);
    assert_eq!(shared.received_count, 1);
    // A connection is tallied once only.
    assert_eq!(first.take_tally(&mut shared, 110, 2), None);
    assert_eq!(shared.received_count, 1);

    assert_eq!(
        second.take_tally(&mut shared, 130, 2),
        Some(TallyOutcome::Terminate { elapsed_ms: 30 })
    );
    assert_eq!(second.state, ConnectionState::ProcessTerminated);
    assert_eq!(shared.received_count, 2);
}
