use tlsign::random::RandomSource;
use tlsign::session::{read_step, PlainRead, ReadFailure, ReadStep, SessionMode};
use tlsign::transcript::Transcript;

fn replay_mode() -> SessionMode {
    let mut t = Transcript::new();
    t.record_read(b"abc", 3);
    SessionMode::Replay { seed: [3u8; 32], times: vec![50, 60], transcript: t }
}

#[test]
fn capture_mode_uses_entropy_and_records_time() {
    let mode = SessionMode::Capture;
    let mut source = RandomSource::new();
    assert_eq!(mode.install_seed(&mut source, [8u8; 32]), [8u8; 32]);
    assert!(source.is_seeded());
    assert!(mode.replay_socket().is_none());
    let mut time = mode.time_source();
    assert_eq!(time.current_time(77), Some(77));
}

#[test]
fn replay_mode_uses_recording() {
    let mode = replay_mode();
    let mut source = RandomSource::new();
    assert_eq!(mode.install_seed(&mut source, [8u8; 32]), [3u8; 32]);
    let mut a = [0u8; 8];
    source.fill(&mut a);
    let mut other = RandomSource::new();
    other.seed_with([3u8; 32]);
    let mut b = [0u8; 8];
    other.fill(&mut b);
    assert_eq!(a, b);
    let mut time = mode.time_source();
    assert_eq!(time.current_time(0), Some(50));
    assert_eq!(time.current_time(0), Some(60));
    assert_eq!(time.current_time(0), None);
    let mut socket = mode.replay_socket().unwrap();
    let mut buf = [0u8; 3];
    assert_eq!(socket.read_check(3), Ok(()));
    assert_eq!(socket.read(&mut buf), 3);
    assert_eq!(&buf, b"abc");
}

#[test]
fn read_loop_decisions() {
    assert_eq!(read_step(true, PlainRead::Data(5)), ReadStep::Deliver(5));
    assert_eq!(read_step(true, PlainRead::Data(0)), ReadStep::Deliver(0));
    assert_eq!(read_step(true, PlainRead::WouldBlock), ReadStep::Retry);
    assert_eq!(read_step(true, PlainRead::Failed), ReadStep::Fail(ReadFailure::Engine));
    assert_eq!(read_step(false, PlainRead::Data(5)), ReadStep::Fail(ReadFailure::Decode));
    assert_eq!(read_step(false, PlainRead::WouldBlock), ReadStep::Fail(ReadFailure::Decode));
}
