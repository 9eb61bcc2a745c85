use focaldesk::frame::{length_prefix, take_frames, FrameError, MAX_FRAME};
use focaldesk::ipc::{accepts_peer, body_length, frame_response};
use focaldesk::ipc_client::{DaemonConnection, Step, Transfer};

fn frame(body: &[u8]) -> Vec<u8> {
    let mut out = (body.len() as u32).to_le_bytes().to_vec();
    out.extend_from_slice(body);
    out
}

#[test]
fn lengths_are_little_endian() {
    for n in [0u32, 1, 255, 256, 65_536, 0x0102_0304, u32::MAX] {
        assert_eq!(length_prefix(n), n.to_le_bytes().to_vec());
        assert_eq!(
            body_length(&n.to_le_bytes().to_vec()),
            if n > MAX_FRAME {
                Err(FrameError::TooLarge(n))
            } else {
                Ok(n)
            }
        );
    }
}

#[test]
fn frames_are_read_back_in_any_pieces() {
    let bodies: Vec<Vec<u8>> = vec![vec![], vec![1, 2, 3], vec![9; 300]];
    let bytes: Vec<u8> = bodies.iter().flat_map(|b| frame(b)).collect();
    for step in [1, 3, 7, bytes.len()] {
        let mut inbox = Vec::new();
        let mut seen = Vec::new();
        for piece in bytes.chunks(step) {
            inbox.extend_from_slice(piece);
            seen.extend(take_frames(&mut inbox).unwrap());
        }
        assert_eq!(seen, bodies);
        assert!(inbox.is_empty());
    }
}

#[test]
fn frames_that_are_too_large_stay() {
    let mut inbox = frame(b"ok");
    inbox.extend_from_slice(&(MAX_FRAME + 1).to_le_bytes());
    assert_eq!(
        take_frames(&mut inbox),
        Err(FrameError::TooLarge(MAX_FRAME + 1))
    );
    assert_eq!(inbox, (MAX_FRAME + 1).to_le_bytes().to_vec());
}

#[test]
fn requests_leave_the_outbox_as_they_are_written() {
    let mut conn = DaemonConnection::new();
    assert!(!conn.wants_write());
    conn.send(b"hello".to_vec()).unwrap();
    assert_eq!(conn.outbox, frame(b"hello"));
    assert!(conn.wants_write());
    assert_eq!(conn.wrote(Transfer::Moved(4)), Step::Again);
    assert_eq!(conn.outbox, b"hello".to_vec());
    assert_eq!(conn.wrote(Transfer::Interrupted), Step::Again);
    assert_eq!(conn.wrote(Transfer::WouldBlock), Step::Stop);
    assert_eq!(conn.wrote(Transfer::Failed), Step::Broken);
    assert_eq!(conn.wrote(Transfer::Moved(0)), Step::Closed);
    assert_eq!(conn.outbox, b"hello".to_vec());
    conn.wrote(Transfer::Moved(5));
    assert!(!conn.wants_write());
    assert_eq!(
        conn.send(vec![0; MAX_FRAME as usize + 1]),
        Err(FrameError::TooLarge(MAX_FRAME + 1))
    );
    assert!(!conn.wants_write());
}

#[test]
fn responses_are_taken_from_the_inbox() {
    let mut conn = DaemonConnection::new();
    let mut scratch = frame(b"{}");
    scratch.extend_from_slice(&frame(b"[]")[..5]);
    let n = scratch.len();
    scratch.push(77);
    assert_eq!(conn.received(Transfer::Moved(n), &scratch), Step::Again);
    assert_eq!(conn.read_responses().unwrap(), vec![b"{}".to_vec()]);
    assert_eq!(conn.received(Transfer::Moved(0), &scratch), Step::Closed);
    assert_eq!(conn.received(Transfer::WouldBlock, &scratch), Step::Stop);
    assert_eq!(
        conn.received(Transfer::Moved(1), &b"]".to_vec()),
        Step::Again
    );
    assert_eq!(conn.read_responses().unwrap(), vec![b"[]".to_vec()]);
    conn.inbox = vec![1, 2, 3];
    conn.outbox = vec![4, 5, 6];
    conn.wipe();
    assert!(conn.inbox.is_empty() && conn.outbox.is_empty());
}

#[test]
fn the_daemon_frames_its_responses_and_knows_its_greeter() {
    assert_eq!(frame_response(b"{}".to_vec()), frame(b"{}"));
    assert!(accepts_peer(42, 42));
    assert!(!accepts_peer(0, 42));
}
