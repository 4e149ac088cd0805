use rust_socket::streamer::{CommandRun, RunAction, RunEvent, RunState};
use rust_socket::transport::{
    is_address_announcement, raw_read_step, ws_read_step, RawEvent, ReadAction, WsEvent,
};

#[test]
fn ws_text_ping_echoes_exactly_ping() {
    let action = ws_read_step(WsEvent::Text(b"ping".to_vec()));
    match action {
        ReadAction::Reply(payload) => assert_eq!(payload, b"ping".to_vec()),
        _ => panic!("a text frame must be echoed"),
    }
}

#[test]
fn ws_binary_frame_is_discarded() {
    match ws_read_step(WsEvent::Binary(b"ping".to_vec())) {
        ReadAction::Discard => {}
        _ => panic!("a binary frame is observed and dropped, never echoed"),
    }
}

#[test]
fn ws_control_frame_is_discarded() {
    match ws_read_step(WsEvent::Control) {
        ReadAction::Discard => {}
        _ => panic!("other frames are ignored"),
    }
}

#[test]
fn raw_address_message_is_noted_not_answered() {
    match raw_read_step(RawEvent::Data(b"address:127.0.0.1".to_vec())) {
        ReadAction::NoteAddress => {}
        _ => panic!("an address announcement is recorded as such"),
    }
}

#[test]
fn raw_chat_message_is_noted_as_chatter() {
    match raw_read_step(RawEvent::Data(b"hello there".to_vec())) {
        ReadAction::NoteChat => {}
        _ => panic!("ordinary bytes are recorded as chatter"),
    }
}

#[test]
fn address_prefix_is_matched_exactly() {
    assert!(is_address_announcement(&b"address".to_vec()));
    assert!(is_address_announcement(&b"address:10.1.2.3".to_vec()));
    assert!(!is_address_announcement(&b"addres".to_vec()));
    assert!(!is_address_announcement(&b"Address:10.1.2.3".to_vec()));
    assert!(!is_address_announcement(&b"".to_vec()));
    assert!(!is_address_announcement(&b"chat address".to_vec()));
}

#[test]
fn raw_end_of_stream_terminates_the_loop() {
    match raw_read_step(RawEvent::Disconnected) {
        ReadAction::Terminate => {}
        _ => panic!("a zero-length read ends the read loop"),
    }
}

#[test]
fn raw_read_error_terminates_the_loop() {
    match raw_read_step(RawEvent::ReadFailed) {
        ReadAction::Terminate => {}
        _ => panic!("a read error ends the read loop"),
    }
}

#[test]
fn three_lines_then_eof_broadcasts_three_in_order() {
    let mut run = CommandRun::start(10);
    assert_eq!(run.state, RunState::Running);
    assert_eq!(run.timeout_secs, 10);
    let lines: [&[u8]; 3] = [b"one", b"two", b"three"];
    for (k, line) in lines.iter().enumerate() {
        match run.step(RunEvent::Line(line.to_vec())) {
            RunAction::Broadcast(sent) => assert_eq!(sent, line.to_vec()),
            _ => panic!("a completed line is broadcast the moment it arrives"),
        }
        assert_eq!(run.lines_emitted, k as u64 + 1);
        assert_eq!(run.state, RunState::Running);
    }
    match run.step(RunEvent::Eof) {
        RunAction::AwaitExit => {}
        _ => panic!("end of stream settles the run"),
    }
    assert_eq!(run.state, RunState::Completed);
    assert_eq!(run.lines_emitted, 3);
}

#[test]
fn deadline_kills_after_partial_output() {
    let mut run = CommandRun::start(10);
    run.step(RunEvent::Line(b"partial".to_vec()));
    match run.step(RunEvent::DeadlineElapsed) {
        RunAction::Kill => {}
        _ => panic!("an elapsed deadline must kill the process"),
    }
    assert_eq!(run.state, RunState::TimedOut);
    // Whatever was read before the deadline had already been broadcast.
    assert_eq!(run.lines_emitted, 1);
}

#[test]
fn read_error_fails_the_run() {
    let mut run = CommandRun::start(10);
    match run.step(RunEvent::ReadFailed) {
        RunAction::AwaitExit => {}
        _ => panic!("a read error is reported, then the run settles"),
    }
    assert_eq!(run.state, RunState::Failed);
}

#[test]
fn a_finished_run_absorbs_every_event() {
    let mut run = CommandRun::start(10);
    run.step(RunEvent::Eof);
    assert_eq!(run.state, RunState::Completed);
    match run.step(RunEvent::Line(b"late".to_vec())) {
        RunAction::Ignore => {}
        _ => panic!("a terminal run demands nothing"),
    }
    match run.step(RunEvent::DeadlineElapsed) {
        RunAction::Ignore => {}
        _ => panic!("a terminal run demands nothing"),
    }
    assert_eq!(run.state, RunState::Completed);
    assert_eq!(run.lines_emitted, 0);
}
