use bytes::Bytes;
use tunneld::proto::{
    read_reply, send_h2_with_backpressure, write_reply, AuthReply, Capacity, Outgoing, Prelude,
    PreludeError, PreludeReader, PreludeStep, SendAction, SendEvent, SendPhase, MAGIC,
    MAX_TOKEN_LEN, VERSION,
};

fn sample(token: &[u8]) -> Prelude {
    Prelude {
        tunnel_id: [1, 2, 3, 4, 5, 6, 7, 8, 9, 10, 11, 12, 13, 14, 15, 16],
        token: token.to_vec(),
    }
}

fn encode(p: &Prelude) -> Vec<u8> {
    let mut w: Vec<u8> = Vec::new();
    assert_eq!(p.write(&mut w), Ok(()));
    w
}

#[test]
fn constants() {
    assert_eq!(&MAGIC, b"TUNNELD\0");
    assert_eq!(VERSION, 1);
    assert_eq!(MAX_TOKEN_LEN, 128);
}

#[test]
fn prelude_bytes() {
    let mut expected: Vec<u8> = b"TUNNELD\0".to_vec();
    expected.push(1);
    expected.extend_from_slice(&[1, 2, 3, 4, 5, 6, 7, 8, 9, 10, 11, 12, 13, 14, 15, 16]);
    expected.push(3);
    expected.extend_from_slice(b"abc");
    assert_eq!(encode(&sample(b"abc")), expected);
}

#[test]
fn prelude_is_appended() {
    let mut w: Vec<u8> = vec![9, 9];
    assert_eq!(sample(b"").write(&mut w), Ok(()));
    assert_eq!(&w[..3], &[9, 9, b'T']);
    assert_eq!(w.len(), 28);
}

#[test]
fn prelude_with_the_longest_token() {
    let p = sample(&[7u8; 128]);
    let bytes = encode(&p);
    assert_eq!(bytes.len(), 26 + 128);
    let (q, n) = Prelude::read(&bytes).unwrap_or_else(|e| panic!("{:?}", e));
    assert_eq!(n, 154);
    assert_eq!(q.token, vec![7u8; 128]);
}

#[test]
fn prelude_with_too_long_a_token_is_not_written() {
    let mut w: Vec<u8> = vec![5];
    assert_eq!(sample(&[7u8; 129]).write(&mut w), Err(PreludeError::TokenTooLong(129)));
    assert_eq!(w, vec![5]);
}

#[test]
fn prelude_round_trip_with_bytes_behind_it() {
    let mut bytes = encode(&sample(b"0123456789abcdef"));
    bytes.extend_from_slice(b"PRI * HTTP/2.0");
    let (p, n) = Prelude::read(&bytes).unwrap_or_else(|e| panic!("{:?}", e));
    assert_eq!(p.tunnel_id, sample(b"").tunnel_id);
    assert_eq!(p.token, b"0123456789abcdef".to_vec());
    assert_eq!(&bytes[n..], b"PRI * HTTP/2.0");
}

#[test]
fn every_part_of_a_prelude_is_incomplete() {
    let bytes = encode(&sample(b"abc"));
    for n in 0..bytes.len() {
        assert_eq!(Prelude::read(&bytes[..n]).err(), Some(PreludeError::UnexpectedEof));
    }
}

#[test]
fn bad_magic() {
    let mut bytes = encode(&sample(b"abc"));
    bytes[7] = b'!';
    assert_eq!(Prelude::read(&bytes).err(), Some(PreludeError::BadMagic));
    assert_eq!(Prelude::read(&bytes[..8]).err(), Some(PreludeError::BadMagic));
    assert_eq!(Prelude::read(&bytes[..7]).err(), Some(PreludeError::UnexpectedEof));
}

#[test]
fn unsupported_version() {
    let mut bytes = encode(&sample(b"abc"));
    bytes[8] = 2;
    assert_eq!(Prelude::read(&bytes).err(), Some(PreludeError::UnsupportedVersion(2)));
    assert_eq!(Prelude::read(&bytes[..9]).err(), Some(PreludeError::UnsupportedVersion(2)));
}

#[test]
fn token_length_beyond_the_limit() {
    let mut bytes = encode(&sample(b"abc"));
    bytes[25] = 129;
    assert_eq!(Prelude::read(&bytes).err(), Some(PreludeError::TokenTooLong(129)));
    assert_eq!(Prelude::read(&bytes[..26]).err(), Some(PreludeError::TokenTooLong(129)));
}

#[test]
fn reader_asks_for_one_field_after_another() {
    let bytes = encode(&sample(b"abc"));
    let mut reader = PreludeReader::new();
    let mut asked: Vec<usize> = Vec::new();
    let mut at = 0;
    loop {
        let n = reader.want();
        asked.push(n);
        match reader.feed(&bytes[at..at + n]) {
            PreludeStep::More => at += n,
            PreludeStep::Done(p) => {
                assert_eq!(p.token, b"abc".to_vec());
                break;
            }
            PreludeStep::Failed(e) => panic!("{:?}", e),
        }
    }
    assert_eq!(asked, vec![8, 1, 16, 1, 3]);
}

#[test]
fn reader_completes_a_prelude_without_token() {
    let bytes = encode(&sample(b""));
    let mut reader = PreludeReader::new();
    for (from, to) in [(0, 8), (8, 9), (9, 25), (25, 26)] {
        assert!(matches!(reader.feed(&bytes[from..to]), PreludeStep::More));
    }
    assert_eq!(reader.want(), 0);
    assert!(matches!(reader.feed(&[]), PreludeStep::Done(p) if p.token.is_empty()));
}

#[test]
fn reply_bytes() {
    let mut w: Vec<u8> = Vec::new();
    write_reply(&mut w, AuthReply::Accept);
    write_reply(&mut w, AuthReply::Reject);
    assert_eq!(w, vec![0x00, 0xff]);
    assert_eq!(read_reply(&w), Some(AuthReply::Accept));
    assert_eq!(read_reply(&w[1..]), Some(AuthReply::Reject));
}

#[test]
fn any_other_reply_byte_rejects() {
    assert_eq!(read_reply(&[0x01]), Some(AuthReply::Reject));
    assert_eq!(read_reply(&[0x80]), Some(AuthReply::Reject));
    assert_eq!(read_reply(&[]), None);
}

/// Sends a body to a stream that grants room as listed, and tells what the stream was asked
/// for, what it got, and how it went.
fn send(data: &[u8], end: bool, grants: &[usize]) -> (Vec<usize>, Vec<(Vec<u8>, bool)>, bool) {
    let mut out = Outgoing::new(Bytes::copy_from_slice(data), end);
    let mut reserved: Vec<usize> = Vec::new();
    let mut chunks: Vec<(Vec<u8>, bool)> = Vec::new();
    let mut next = 0;
    let mut action = send_h2_with_backpressure(&mut out, SendEvent::Start);
    loop {
        let event = match action {
            SendAction::Reserve(n) => {
                reserved.push(n);
                let grant = grants[next];
                next += 1;
                SendEvent::Capacity(Capacity::Granted(grant))
            }
            SendAction::Send { chunk, end } => {
                chunks.push((chunk.to_vec(), end));
                SendEvent::Sent(true)
            }
            SendAction::Done(ok) => {
                assert_eq!(out.phase(), SendPhase::Finished);
                return (reserved, chunks, ok);
            }
        };
        action = send_h2_with_backpressure(&mut out, event);
    }
}

#[test]
fn body_is_sent_as_room_is_granted() {
    let (reserved, chunks, ok) = send(b"hello world", true, &[0, 4, 3, 100]);
    assert!(ok);
    assert_eq!(reserved, vec![11, 11, 7, 4]);
    assert_eq!(
        chunks,
        vec![(b"hell".to_vec(), false), (b"o w".to_vec(), false), (b"orld".to_vec(), true)]
    );
}

#[test]
fn stream_is_ended_exactly_once() {
    let ends = |chunks: Vec<(Vec<u8>, bool)>| chunks.iter().filter(|c| c.1).count();
    for data in [b"".as_slice(), b"a".as_slice(), b"abcdefgh".as_slice()] {
        assert_eq!(ends(send(data, true, &[3, 0, 3, 3]).1), 1);
        assert_eq!(ends(send(data, false, &[3, 0, 3, 3]).1), 0);
    }
}

#[test]
fn body_that_does_not_end_the_stream() {
    let (_, chunks, ok) = send(b"abc", false, &[3]);
    assert!(ok);
    assert_eq!(chunks, vec![(b"abc".to_vec(), false)]);
}

#[test]
fn empty_body_is_sent_without_asking_for_room() {
    let (reserved, chunks, ok) = send(b"", true, &[]);
    assert!(ok);
    assert!(reserved.is_empty());
    assert_eq!(chunks, vec![(Vec::new(), true)]);
}

#[test]
fn sending_stops_when_the_stream_is_closed() {
    let mut out = Outgoing::new(Bytes::copy_from_slice(b"abc"), true);
    assert!(matches!(
        send_h2_with_backpressure(&mut out, SendEvent::Start),
        SendAction::Reserve(3)
    ));
    assert!(matches!(
        send_h2_with_backpressure(&mut out, SendEvent::Capacity(Capacity::Closed)),
        SendAction::Done(true)
    ));
}

#[test]
fn sending_fails_when_the_stream_breaks() {
    let mut out = Outgoing::new(Bytes::copy_from_slice(b"abc"), true);
    send_h2_with_backpressure(&mut out, SendEvent::Start);
    assert!(matches!(
        send_h2_with_backpressure(&mut out, SendEvent::Capacity(Capacity::Failed)),
        SendAction::Done(false)
    ));
    let mut out = Outgoing::new(Bytes::copy_from_slice(b"abc"), true);
    send_h2_with_backpressure(&mut out, SendEvent::Start);
    send_h2_with_backpressure(&mut out, SendEvent::Capacity(Capacity::Granted(2)));
    assert!(matches!(
        send_h2_with_backpressure(&mut out, SendEvent::Sent(false)),
        SendAction::Done(false)
    ));
}
