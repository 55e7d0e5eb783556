use neelix::event::{DomainEvent, HidEvent, MediaInfo, Process};
use neelix::event_type::EventType;
use neelix::wire::{encode_frames, FRAME_SIZE};

fn padded(bytes: &[u8]) -> Vec<u8> {
    let mut v = bytes.to_vec();
    v.resize(FRAME_SIZE, 0);
    v
}

fn header_frame(code: u8) -> Vec<u8> {
    padded(&[0xFA, 0x00, 0xF0, code])
}

fn footer_frame() -> Vec<u8> {
    padded(&[0xAF, 0x00, 0x0F, 0x00])
}

/// Reads a stream back: type code, delimited fields, verbatim tail.
fn decode(stream: &[u8]) -> Option<(u8, Vec<Vec<u8>>, Vec<u8>)> {
    let n = stream.len();
    if n % FRAME_SIZE != 0 || n < 2 * FRAME_SIZE {
        return None;
    }
    if stream[0..3] != [0xFA, 0x00, 0xF0] || stream[n - 32..n - 28] != [0xAF, 0x00, 0x0F, 0x00] {
        return None;
    }
    let code = stream[3];
    let count = match code {
        1 | 2 => 4,
        3 => 2,
        4 | 5 => 0,
        _ => return None,
    };
    let mut payload = stream[32..n - 32].to_vec();
    while payload.last() == Some(&0) {
        payload.pop();
    }
    let mut fields = Vec::new();
    let mut rest = payload.as_slice();
    for _ in 0..count {
        let k = rest.iter().position(|b| *b == b'\n')?;
        fields.push(rest[..k].to_vec());
        rest = &rest[k + 1..];
    }
    Some((code, fields, rest.to_vec()))
}

fn song() -> MediaInfo {
    MediaInfo {
        title: Some("Song".to_string()),
        artist: Some("Artist".to_string()),
        album: None,
        is_shuffle: Some(false),
        artwork: None,
    }
}

#[test]
fn media_update_example_frames() {
    let frames = song().chunks();
    assert_eq!(frames.len(), 3);
    assert_eq!(frames[0], header_frame(0x01));
    assert_eq!(frames[1], padded(b"Song\nArtist\n\n\x00\n"));
    assert_eq!(frames[2], footer_frame());
}

#[test]
fn media_update_payload_bytes() {
    assert_eq!(song().to_bytes(), b"Song\nArtist\n\n\x00\n".to_vec());
    let m = MediaInfo {
        title: Some("T".to_string()),
        artist: None,
        album: Some("Al".to_string()),
        is_shuffle: Some(true),
        artwork: Some(vec![9, 8]),
    };
    assert_eq!(m.to_bytes(), vec![b'T', b'\n', b'\n', b'A', b'l', b'\n', 1, b'\n', 9, 8]);
}

#[test]
fn domain_event_media_matches_media_info() {
    let e = DomainEvent::MediaUpdate(song());
    assert_eq!(e.chunks(), song().chunks());
    assert_eq!(e.event_type(), EventType::MediaUpdate);
}

#[test]
fn shuffle_only_update() {
    let e = DomainEvent::MediaUpdateShuffleOnly(true);
    assert_eq!(e.event_type(), EventType::MediaUpdateShufflePlay);
    assert_eq!(e.to_bytes(), vec![b'\n', b'\n', b'\n', 1, b'\n']);
    let frames = e.chunks();
    assert_eq!(frames.len(), 3);
    assert_eq!(frames[0], header_frame(0x02));
}

#[test]
fn process_update_payload() {
    let e = DomainEvent::ProcessStateUpdate(Process {
        name: "chrome.exe".to_string(),
        pid: 7,
        is_running: false,
    });
    assert_eq!(e.to_bytes(), b"chrome.exe\n\x00\n".to_vec());
    assert_eq!(e.chunks()[0], header_frame(0x03));
}

#[test]
fn raw_string_and_pc_update_are_verbatim() {
    let raw = DomainEvent::RawString(b"hello\nworld".to_vec());
    assert_eq!(raw.to_bytes(), b"hello\nworld".to_vec());
    assert_eq!(raw.chunks()[0], header_frame(0x05));
    let pc = DomainEvent::PcUpdate(vec![1, 2, 3]);
    assert_eq!(pc.chunks()[0], header_frame(0x04));
    assert_eq!(pc.chunks()[1], padded(&[1, 2, 3]));
}

#[test]
fn empty_payload_gives_header_and_footer() {
    let frames = encode_frames(0x05, &Vec::new());
    assert_eq!(frames, vec![header_frame(0x05), footer_frame()]);
}

#[test]
fn full_frame_payload_gets_own_footer_frame() {
    let payload: Vec<u8> = (1..=32).collect();
    let frames = encode_frames(0x04, &payload);
    assert_eq!(frames.len(), 3);
    assert_eq!(frames[1], payload);
    assert_eq!(frames[2], footer_frame());
}

#[test]
fn frame_count_formula() {
    for len in [0usize, 1, 31, 32, 33, 63, 64, 65, 100] {
        let payload = vec![7u8; len];
        let frames = encode_frames(0x05, &payload);
        assert_eq!(frames.len(), (len + 64 + 31) / 32, "len {}", len);
        assert!(frames.len() >= 1);
        for f in &frames {
            assert_eq!(f.len(), FRAME_SIZE);
        }
    }
}

#[test]
fn long_payload_spans_frames_in_order() {
    let payload: Vec<u8> = (0..70u32).map(|i| (i % 200 + 1) as u8).collect();
    let frames = encode_frames(0x05, &payload);
    assert_eq!(frames.len(), 5);
    assert_eq!(frames[1], payload[0..32].to_vec());
    assert_eq!(frames[2], payload[32..64].to_vec());
    assert_eq!(frames[3], padded(&payload[64..70]));
}

#[test]
fn round_trip_of_media_update() {
    let m = MediaInfo {
        title: Some("Metalingus".to_string()),
        artist: Some("Alter Bridge".to_string()),
        album: Some("One Day Remains".to_string()),
        is_shuffle: Some(true),
        artwork: Some((1..=60).collect()),
    };
    let stream: Vec<u8> = m.chunks().concat();
    let (code, fields, tail) = decode(&stream).unwrap();
    assert_eq!(code, 0x01);
    assert_eq!(
        fields,
        vec![
            b"Metalingus".to_vec(),
            b"Alter Bridge".to_vec(),
            b"One Day Remains".to_vec(),
            vec![1]
        ]
    );
    assert_eq!(tail, (1..=60).collect::<Vec<u8>>());
}

#[test]
fn round_trip_of_process_update() {
    let e = DomainEvent::ProcessStateUpdate(Process {
        name: "chrome.exe".to_string(),
        pid: 3,
        is_running: true,
    });
    let (code, fields, tail) = decode(&e.chunks().concat()).unwrap();
    assert_eq!(code, 0x03);
    assert_eq!(fields, vec![b"chrome.exe".to_vec(), vec![1]]);
    assert!(tail.is_empty());
}

#[test]
fn from_bytes_keeps_the_bytes() {
    let m = MediaInfo::from_bytes(&[4, 5, 6]);
    assert_eq!(m.artwork, Some(vec![4, 5, 6]));
    assert_eq!(m.title, None);
    match DomainEvent::from_bytes(&[1, 2]) {
        DomainEvent::RawString(v) => assert_eq!(v, vec![1, 2]),
        other => panic!("unexpected {:?}", other),
    }
}

#[test]
fn event_type_codes() {
    assert_eq!(EventType::from_u8(0x01), EventType::MediaUpdate);
    assert_eq!(EventType::from_u8(0x02), EventType::MediaUpdateShufflePlay);
    assert_eq!(EventType::from_u8(0x03), EventType::ProcessStateUpdate);
    assert_eq!(EventType::from_u8(0x04), EventType::PCUpdate);
    assert_eq!(EventType::from_u8(0x05), EventType::RawString);
    assert_eq!(EventType::from_u8(0x00), EventType::NoEvent);
    assert_eq!(EventType::from_u8(0x77), EventType::NoEvent);
    assert_eq!(EventType::RawString.code(), 0x05);
    assert_eq!(EventType::NoEvent.code(), 0x00);
}
