use tlsign::transcript::{EmulatedSocket, ReplayError, Transcript};

fn record(t: &mut Transcript, read: bool, bytes: &[u8]) {
    if read {
        t.record_read(bytes, bytes.len());
    } else {
        t.record_write(bytes, bytes.len());
    }
}

fn sample() -> Transcript {
    let mut t = Transcript::new();
    record(&mut t, false, b"client hello");
    record(&mut t, true, b"server hello");
    record(&mut t, true, b"cert");
    record(&mut t, false, b"finished");
    record(&mut t, true, b"app data");
    t
}

#[test]
fn capture_keeps_directions_apart() {
    let t = sample();
    assert_eq!(t.reads(), &vec![b"server hello".to_vec(), b"cert".to_vec(), b"app data".to_vec()]);
    assert_eq!(t.writes(), &vec![b"client hello".to_vec(), b"finished".to_vec()]);
}

#[test]
fn capture_keeps_only_the_filled_part() {
    let mut t = Transcript::new();
    let buf = *b"abcdefgh";
    t.record_read(&buf, 3);
    t.record_write(&buf, 0);
    assert_eq!(t.reads(), &vec![b"abc".to_vec()]);
    assert_eq!(t.writes(), &vec![Vec::<u8>::new()]);
}

#[test]
fn round_trip_replays_every_chunk() {
    let mut s = EmulatedSocket::new(sample().clone());
    let mut buf = [0u8; 64];
    assert_eq!(s.write_check(b"client hello"), Ok(()));
    assert_eq!(s.write(b"client hello"), 12);
    assert_eq!(s.read_check(buf.len()), Ok(()));
    assert_eq!(s.read(&mut buf), 12);
    assert_eq!(&buf[..12], b"server hello");
    assert_eq!(s.read(&mut buf), 4);
    assert_eq!(&buf[..4], b"cert");
    assert_eq!(&buf[4..12], b"er hello");
    assert_eq!(s.write(b"finished"), 8);
    assert_eq!(s.flush(), Ok(()));
    assert!(!s.is_finished());
    assert_eq!(s.read(&mut buf), 8);
    assert_eq!(&buf[..8], b"app data");
    assert!(s.is_finished());
    assert_eq!(s.read_check(buf.len()), Err(ReplayError::ReadsExhausted));
    assert_eq!(s.write_check(b"more"), Err(ReplayError::WritesExhausted));
}

#[test]
fn replay_ignores_interleaving() {
    let mut s = EmulatedSocket::new(sample());
    let mut buf = [0u8; 16];
    assert_eq!(s.read(&mut buf), 12);
    assert_eq!(s.read(&mut buf), 4);
    assert_eq!(s.read(&mut buf), 8);
    assert_eq!(&buf[..8], b"app data");
    assert_eq!(s.write_check(b"client hello"), Ok(()));
    assert_eq!(s.write(b"client hello"), 12);
    assert_eq!(s.write_check(b"finished"), Ok(()));
    assert_eq!(s.write(b"finished"), 8);
    assert!(s.is_finished());
}

#[test]
fn short_buffer_is_refused() {
    let mut s = EmulatedSocket::new(sample());
    assert_eq!(s.read_check(11), Err(ReplayError::BufferTooSmall));
    assert_eq!(s.read_check(12), Ok(()));
    let mut exact = [0u8; 12];
    assert_eq!(s.read(&mut exact), 12);
    assert_eq!(&exact, b"server hello");
}

#[test]
fn altered_write_is_refused() {
    let s = EmulatedSocket::new(sample());
    assert_eq!(s.write_check(b"client hellp"), Err(ReplayError::WriteMismatch));
    assert_eq!(s.write_check(b"dlient hello"), Err(ReplayError::WriteMismatch));
    assert_eq!(s.write_check(b"client hell"), Err(ReplayError::WriteMismatch));
    assert_eq!(s.write_check(b"client hello"), Ok(()));
}

#[test]
fn fresh_socket_starts_at_first_chunk() {
    let t = Transcript::from_chunks(vec![vec![42u8], vec![43u8]], Vec::new());
    let mut first = EmulatedSocket::new(t.clone());
    let mut buf = [0u8; 1];
    assert_eq!(first.read(&mut buf), 1);
    assert_eq!(first.read(&mut buf), 1);
    assert_eq!(buf[0], 43);
    let mut second = EmulatedSocket::new(t);
    assert_eq!(second.read(&mut buf), 1);
    assert_eq!(buf[0], 42);
}

#[test]
fn empty_chunk_replays() {
    let mut t = Transcript::new();
    record(&mut t, true, b"");
    record(&mut t, false, b"");
    let mut s = EmulatedSocket::new(t);
    let mut buf: [u8; 0] = [];
    assert_eq!(s.read_check(0), Ok(()));
    assert_eq!(s.read(&mut buf), 0);
    assert_eq!(s.write_check(b""), Ok(()));
    assert_eq!(s.write(b""), 0);
}
