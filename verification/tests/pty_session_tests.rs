use ssh_gateway::error::{SetupStage, SshError};
use ssh_gateway::pty_session::{
    check_size, retry_full_write, setup_step, stage_timeout_secs, ChannelEvent, InputStep, PtySession, PtyState,
    Pump, PumpStep, SetupStep, StageOutcome, WriteOutcome, INPUT_CAPACITY, MAX_WRITE_LEN,
    OUTPUT_CAPACITY,
};

fn running() -> PtySession {
    PtySession::create(80, 24).expect("a valid size")
}

#[test]
fn create_takes_sizes_from_1_to_1000() {
    for (cols, rows) in [(1, 1), (80, 24), (1000, 1000), (1, 1000), (1000, 1)] {
        let pty = PtySession::create(cols, rows).expect("a valid size");
        assert_eq!(pty.get_size(), (cols, rows));
        assert!(!pty.is_closed());
        assert_eq!(pty.state(), PtyState::Running);
        assert_eq!(pty.pending_input(), 0);
        assert_eq!(pty.pending_output(), 0);
    }
}

#[test]
fn create_refuses_other_sizes() {
    for (cols, rows) in [(0, 24), (80, 0), (0, 0), (1001, 24), (80, 1001), (u32::MAX, u32::MAX)] {
        match PtySession::create(cols, rows) {
            Err(e) => assert_eq!(e, SshError::BadTerminalSize { cols, rows }),
            Ok(_) => panic!("{}x{} was taken", cols, rows),
        }
        assert_eq!(check_size(cols, rows), Err(SshError::BadTerminalSize { cols, rows }));
    }
    assert_eq!(check_size(1000, 1), Ok(()));
}

#[test]
fn update_size_validates_and_keeps_the_old_size_on_error() {
    let mut pty = running();
    assert_eq!(pty.update_size(120, 40), Ok(()));
    assert_eq!(pty.get_size(), (120, 40));
    assert_eq!(pty.update_size(0, 40), Err(SshError::BadTerminalSize { cols: 0, rows: 40 }));
    assert_eq!(pty.update_size(120, 1001), Err(SshError::BadTerminalSize { cols: 120, rows: 1001 }));
    assert_eq!(pty.get_size(), (120, 40));
}

#[test]
fn writes_reach_the_pump_in_order() {
    let mut pty = running();
    let writes: Vec<Vec<u8>> = vec![b"ls".to_vec(), b" -la".to_vec(), b"\n".to_vec(), vec![0, 255, 7]];
    for w in &writes {
        assert_eq!(pty.write(w.clone()), Ok(WriteOutcome::Queued));
    }
    assert_eq!(pty.pending_input(), writes.len());
    let mut delivered: Vec<u8> = Vec::new();
    loop {
        match pty.next_input() {
            InputStep::Deliver { data } => delivered.extend_from_slice(&data),
            InputStep::Wait => break,
            InputStep::Stop => panic!("the pump stopped on an open terminal"),
        }
    }
    assert_eq!(delivered, writes.concat());
    assert_eq!(pty.pending_input(), 0);
}

#[test]
fn writes_and_pump_steps_may_interleave() {
    let mut pty = running();
    assert_eq!(pty.write(b"a".to_vec()), Ok(WriteOutcome::Queued));
    assert_eq!(pty.next_input(), InputStep::Deliver { data: b"a".to_vec() });
    assert_eq!(pty.next_input(), InputStep::Wait);
    assert_eq!(pty.write(b"b".to_vec()), Ok(WriteOutcome::Queued));
    assert_eq!(pty.write(b"c".to_vec()), Ok(WriteOutcome::Queued));
    assert_eq!(pty.next_input(), InputStep::Deliver { data: b"b".to_vec() });
    assert_eq!(pty.write(b"d".to_vec()), Ok(WriteOutcome::Queued));
    assert_eq!(pty.next_input(), InputStep::Deliver { data: b"c".to_vec() });
    assert_eq!(pty.next_input(), InputStep::Deliver { data: b"d".to_vec() });
    assert_eq!(pty.next_input(), InputStep::Wait);
}

#[test]
fn an_empty_write_does_nothing() {
    let mut pty = running();
    assert_eq!(pty.write(Vec::new()), Ok(WriteOutcome::Ignored));
    assert_eq!(pty.pending_input(), 0);
}

#[test]
fn a_write_of_a_million_bytes_is_the_largest() {
    let mut pty = running();
    assert_eq!(MAX_WRITE_LEN, 1_000_000);
    assert_eq!(pty.write(vec![b'x'; 1_000_000]), Ok(WriteOutcome::Queued));
    assert_eq!(pty.pending_input(), 1);
    assert_eq!(
        pty.write(vec![b'x'; 1_000_001]),
        Err(SshError::PayloadTooLarge { len: 1_000_001 })
    );
    assert_eq!(pty.pending_input(), 1);
}

#[test]
fn a_full_input_queue_hands_the_bytes_back() {
    let mut pty = running();
    assert_eq!(INPUT_CAPACITY, 1000);
    for i in 0..1000u32 {
        assert_eq!(pty.write(i.to_be_bytes().to_vec()), Ok(WriteOutcome::Queued));
    }
    assert_eq!(pty.write(b"late".to_vec()), Ok(WriteOutcome::Full { data: b"late".to_vec() }));
    assert_eq!(pty.pending_input(), 1000);
    assert_eq!(pty.next_input(), InputStep::Deliver { data: 0u32.to_be_bytes().to_vec() });
    assert_eq!(pty.write(b"late".to_vec()), Ok(WriteOutcome::Queued));
    assert_eq!(pty.pending_input(), 1000);
}

#[test]
fn a_write_to_a_full_queue_gives_up_after_five_seconds() {
    assert_eq!(retry_full_write(0), Ok(()));
    assert_eq!(retry_full_write(4999), Ok(()));
    assert_eq!(retry_full_write(5000), Err(SshError::WriteTimeout));
    assert_eq!(retry_full_write(u64::MAX), Err(SshError::WriteTimeout));
}

#[test]
fn output_is_read_in_order_and_empty_means_no_data_yet() {
    let mut pty = running();
    assert_eq!(pty.read(), Ok(Vec::new()));
    assert_eq!(pty.on_channel_event(ChannelEvent::Data { data: b"out".to_vec() }), PumpStep::Continue);
    assert_eq!(
        pty.on_channel_event(ChannelEvent::ExtendedData { data: b"err".to_vec() }),
        PumpStep::Continue
    );
    assert_eq!(pty.pending_output(), 2);
    assert_eq!(pty.read(), Ok(b"out".to_vec()));
    assert_eq!(pty.read(), Ok(b"err".to_vec()));
    assert_eq!(pty.read(), Ok(Vec::new()));
}

#[test]
fn a_full_output_queue_hands_the_bytes_back() {
    let mut pty = running();
    assert_eq!(OUTPUT_CAPACITY, 2000);
    for _ in 0..2000 {
        assert_eq!(pty.on_channel_event(ChannelEvent::Data { data: vec![1] }), PumpStep::Continue);
    }
    assert_eq!(
        pty.on_channel_event(ChannelEvent::Data { data: vec![2] }),
        PumpStep::Full { data: vec![2] }
    );
    assert_eq!(pty.pending_output(), 2000);
    assert_eq!(pty.read(), Ok(vec![1]));
    assert_eq!(pty.on_channel_event(ChannelEvent::Data { data: vec![2] }), PumpStep::Continue);
}

#[test]
fn status_idle_and_other_messages_keep_the_pump_going() {
    let mut pty = running();
    assert_eq!(pty.on_channel_event(ChannelEvent::ExitStatus { code: 3 }), PumpStep::Continue);
    assert_eq!(pty.on_channel_event(ChannelEvent::Idle), PumpStep::Continue);
    assert_eq!(pty.on_channel_event(ChannelEvent::Other), PumpStep::Continue);
    assert!(!pty.is_closed());
    assert_eq!(pty.pending_output(), 0);
}

#[test]
fn the_end_of_the_stream_closes_the_terminal() {
    for ev in [ChannelEvent::Eof, ChannelEvent::Close, ChannelEvent::Gone] {
        let mut pty = running();
        assert_eq!(pty.on_channel_event(ev), PumpStep::Stop);
        assert!(pty.is_closed());
        assert_eq!(pty.state(), PtyState::Closing);
        assert_eq!(pty.write(b"x".to_vec()), Err(SshError::PtyClosed));
        assert_eq!(pty.read(), Err(SshError::PtyClosed));
        assert_eq!(pty.next_input(), InputStep::Stop);
        assert_eq!(pty.state(), PtyState::Closed);
    }
}

#[test]
fn close_is_idempotent() {
    let mut pty = running();
    assert_eq!(pty.write(b"x".to_vec()), Ok(WriteOutcome::Queued));
    assert!(pty.close());
    assert!(pty.is_closed());
    assert_eq!(pty.state(), PtyState::Closing);
    assert!(!pty.close());
    assert!(pty.is_closed());
    assert_eq!(pty.state(), PtyState::Closing);
    assert_eq!(pty.pending_input(), 1);
}

#[test]
fn a_closed_terminal_refuses_input_and_queues_no_output() {
    let mut pty = running();
    assert_eq!(pty.on_channel_event(ChannelEvent::Data { data: b"kept".to_vec() }), PumpStep::Continue);
    assert!(pty.close());
    assert_eq!(pty.write(b"x".to_vec()), Err(SshError::PtyClosed));
    assert_eq!(pty.write(Vec::new()), Err(SshError::PtyClosed));
    assert_eq!(pty.read(), Err(SshError::PtyClosed));
    assert_eq!(pty.on_channel_event(ChannelEvent::Data { data: b"late".to_vec() }), PumpStep::Stop);
    assert_eq!(pty.pending_output(), 1);
}

#[test]
fn the_state_follows_the_pumps() {
    let mut pty = running();
    assert_eq!(pty.state(), PtyState::Running);
    pty.pump_ended(Pump::Input);
    assert!(pty.is_closed());
    assert_eq!(pty.state(), PtyState::Closing);
    pty.pump_ended(Pump::Output);
    assert_eq!(pty.state(), PtyState::Closed);
    pty.pump_ended(Pump::Output);
    assert_eq!(pty.state(), PtyState::Closed);
}

#[test]
fn setup_goes_channel_terminal_shell() {
    assert_eq!(
        setup_step(SetupStage::OpenChannel, StageOutcome::Done),
        Ok(SetupStep::Next { stage: SetupStage::RequestPty })
    );
    assert_eq!(
        setup_step(SetupStage::RequestPty, StageOutcome::Done),
        Ok(SetupStep::Next { stage: SetupStage::StartShell })
    );
    assert_eq!(setup_step(SetupStage::StartShell, StageOutcome::Done), Ok(SetupStep::Ready));
    for stage in [SetupStage::OpenChannel, SetupStage::RequestPty, SetupStage::StartShell] {
        assert_eq!(
            setup_step(stage, StageOutcome::TimedOut),
            Err(SshError::ChannelSetupTimeout { stage })
        );
        assert_eq!(
            setup_step(stage, StageOutcome::Failed { detail: "refused".to_string() }),
            Err(SshError::TransportError { detail: "refused".to_string() })
        );
    }
    assert_eq!(stage_timeout_secs(SetupStage::OpenChannel), 10);
    assert_eq!(stage_timeout_secs(SetupStage::RequestPty), 5);
    assert_eq!(stage_timeout_secs(SetupStage::StartShell), 5);
}
