use bytes::Bytes;
use tunneld::pump::{
    copy_h2_to_writer, copy_reader_to_h2, download_step, intake_step, relay_step, upload_step,
    BodyAction, BodyEvent, Copier, CopyAction, CopyEvent, ReadAction, ReadEvent, ReadPhase,
    StreamAction, StreamEvent, WS_PIPE_BUF,
};

fn bytes(s: &[u8]) -> Bytes {
    Bytes::copy_from_slice(s)
}

#[test]
fn buffer_size() {
    assert_eq!(WS_PIPE_BUF, 16 * 1024);
}

#[test]
fn request_body_into_the_tunnel() {
    assert!(matches!(upload_step(BodyEvent::Data(bytes(b"ab"))), BodyAction::Send(b) if b == "ab"));
    assert!(matches!(upload_step(BodyEvent::Data(bytes(b""))), BodyAction::Skip));
    assert!(matches!(upload_step(BodyEvent::Other), BodyAction::Skip));
    assert!(matches!(upload_step(BodyEvent::Failed), BodyAction::Finish));
    assert!(matches!(upload_step(BodyEvent::End), BodyAction::Finish));
}

#[test]
fn response_body_into_the_tunnel() {
    assert!(
        matches!(download_step(BodyEvent::Data(bytes(b"ab"))), BodyAction::Send(b) if b == "ab")
    );
    assert!(matches!(download_step(BodyEvent::Data(bytes(b""))), BodyAction::Skip));
    assert!(matches!(download_step(BodyEvent::Other), BodyAction::Skip));
    assert!(matches!(download_step(BodyEvent::Failed), BodyAction::Abort));
    assert!(matches!(download_step(BodyEvent::End), BodyAction::Finish));
}

#[test]
fn bodies_arrive_whole() {
    let parts: [&[u8]; 4] = [b"one", b"", b"two", b"three"];
    let mut up: Vec<u8> = Vec::new();
    let mut down: Vec<u8> = Vec::new();
    for p in parts {
        if let BodyAction::Send(b) = upload_step(BodyEvent::Data(bytes(p))) {
            up.extend_from_slice(&b);
        }
        if let BodyAction::Send(b) = download_step(BodyEvent::Data(bytes(p))) {
            down.extend_from_slice(&b);
        }
    }
    assert_eq!(up, b"onetwothree".to_vec());
    assert_eq!(down, up);
}

#[test]
fn response_body_out_of_the_tunnel() {
    assert!(matches!(
        relay_step(StreamEvent::Chunk(bytes(b"abc"))),
        StreamAction::Pass { chunk, room: 3 } if chunk == "abc"
    ));
    assert!(matches!(
        relay_step(StreamEvent::Chunk(bytes(b""))),
        StreamAction::Pass { chunk, room: 0 } if chunk.is_empty()
    ));
    assert!(matches!(relay_step(StreamEvent::Failed), StreamAction::Finish));
    assert!(matches!(relay_step(StreamEvent::End), StreamAction::Finish));
}

#[test]
fn request_body_out_of_the_tunnel() {
    assert!(matches!(
        intake_step(StreamEvent::Chunk(bytes(b"abc"))),
        StreamAction::Pass { chunk, room: 3 } if chunk == "abc"
    ));
    assert!(matches!(intake_step(StreamEvent::Chunk(bytes(b""))), StreamAction::Skip));
    assert!(matches!(intake_step(StreamEvent::Failed), StreamAction::Finish));
    assert!(matches!(intake_step(StreamEvent::End), StreamAction::Finish));
}

#[test]
fn bodies_leave_whole_and_give_room_back() {
    let parts: [&[u8]; 4] = [b"one", b"", b"two", b"three"];
    for step in [relay_step, intake_step] {
        let mut out: Vec<u8> = Vec::new();
        let mut given = 0;
        for p in parts {
            if let StreamAction::Pass { chunk, room } = step(StreamEvent::Chunk(bytes(p))) {
                out.extend_from_slice(&chunk);
                given += room;
            }
        }
        assert_eq!(out, b"onetwothree".to_vec());
        assert_eq!(given, 11);
    }
}

#[test]
fn stream_is_copied_to_a_socket() {
    let mut c = Copier::new();
    let mut written: Vec<u8> = Vec::new();
    let mut released = 0;
    for part in [b"ab".as_slice(), b"".as_slice(), b"cde".as_slice()] {
        let mut action = copy_h2_to_writer(&mut c, CopyEvent::Chunk(bytes(part)));
        if let CopyAction::Write(b) = action {
            written.extend_from_slice(&b);
            action = copy_h2_to_writer(&mut c, CopyEvent::Written(true));
        }
        match action {
            CopyAction::Release(n) => {
                assert_eq!(n, part.len());
                released += n;
            }
            _ => panic!("no room given back"),
        }
    }
    assert_eq!(written, b"abcde".to_vec());
    assert_eq!(released, 5);
    assert!(matches!(copy_h2_to_writer(&mut c, CopyEvent::End), CopyAction::Shutdown));
}

#[test]
fn copying_that_breaks_off() {
    let mut c = Copier::new();
    assert!(matches!(copy_h2_to_writer(&mut c, CopyEvent::Failed), CopyAction::Fail));
    let mut c = Copier::new();
    copy_h2_to_writer(&mut c, CopyEvent::Chunk(bytes(b"ab")));
    assert!(matches!(copy_h2_to_writer(&mut c, CopyEvent::Written(false)), CopyAction::Fail));
}

/// Copies a socket that gives these parts and then ends, and tells what the stream got.
fn copied(parts: &[&[u8]]) -> (Vec<u8>, usize) {
    let mut phase = ReadPhase::Reading;
    let mut buf = [0u8; 8];
    let mut sent: Vec<u8> = Vec::new();
    let mut ends = 0;
    let mut at = 0;
    loop {
        let part: &[u8] = if at < parts.len() { parts[at] } else { b"" };
        at += 1;
        buf[..part.len()].copy_from_slice(part);
        match copy_reader_to_h2(&mut phase, &buf, ReadEvent::Read(part.len())) {
            ReadAction::Forward(b) => {
                assert_eq!(phase, ReadPhase::Forwarding);
                sent.extend_from_slice(&b);
                let more = copy_reader_to_h2(&mut phase, &buf, ReadEvent::Forwarded(true));
                assert!(matches!(more, ReadAction::ReadMore));
            }
            ReadAction::EndStream => {
                ends += 1;
                assert_eq!(phase, ReadPhase::Stopped);
                return (sent, ends);
            }
            _ => panic!("broken off"),
        }
    }
}

#[test]
fn socket_is_copied_to_a_stream() {
    assert_eq!(copied(&[b"hello", b" ", b"world"]), (b"hello world".to_vec(), 1));
    assert_eq!(copied(&[]), (Vec::new(), 1));
}

#[test]
fn copying_of_a_socket_that_breaks_off() {
    let mut phase = ReadPhase::Reading;
    let failed = copy_reader_to_h2(&mut phase, b"", ReadEvent::Failed);
    assert!(matches!(failed, ReadAction::Fail));
    assert_eq!(phase, ReadPhase::Stopped);
    let mut phase = ReadPhase::Reading;
    copy_reader_to_h2(&mut phase, b"ab", ReadEvent::Read(2));
    let failed = copy_reader_to_h2(&mut phase, b"ab", ReadEvent::Forwarded(false));
    assert!(matches!(failed, ReadAction::Fail));
    assert_eq!(phase, ReadPhase::Stopped);
}

#[test]
fn bodies_end_once() {
    let events = || {
        vec![
            BodyEvent::Data(bytes(b"a")),
            BodyEvent::Other,
            BodyEvent::Data(bytes(b"")),
            BodyEvent::End,
        ]
    };
    for step in [upload_step, download_step] {
        let ends = events()
            .into_iter()
            .map(step)
            .filter(|a| matches!(a, BodyAction::Finish))
            .count();
        assert_eq!(ends, 1);
    }
}
