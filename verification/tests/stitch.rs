use eventador::{StitchMessage, StreamDecoder};

#[test]
fn stitch_type_hash_is_stable_per_type() {
    assert_eq!(StitchMessage::hash_type::<usize>(), StitchMessage::hash_type::<usize>());
    assert_ne!(StitchMessage::hash_type::<usize>(), StitchMessage::hash_type::<String>());
    assert_eq!(
        StitchMessage::hash_type::<u8>(),
        StitchMessage::hash_type_id(StitchMessage::type_id::<u8>())
    );
    assert_eq!(std::any::TypeId::of::<u8>(), StitchMessage::type_id::<u8>());
}

#[test]
fn stitch_encoding_is_messagepack_array() {
    let msg = StitchMessage { type_id: 5, bytes: vec![1, 2] };
    let encoded = msg.encode().unwrap();
    assert_eq!(vec![0x92, 0x05, 0x92, 0x01, 0x02], encoded);
}

#[test]
fn stitch_decoder_cuts_stream_into_messages() {
    let a = StitchMessage { type_id: 300, bytes: vec![7, 8, 9] }.encode().unwrap();
    let b = StitchMessage { type_id: 1, bytes: vec![] }.encode().unwrap();
    let mut stream = a.clone();
    stream.extend_from_slice(&b);

    let mut decoder = StreamDecoder::new();
    let msgs = decoder.feed(&stream);
    assert_eq!(2, msgs.len());
    assert_eq!(300, msgs[0].type_id);
    assert_eq!(vec![7, 8, 9], msgs[0].bytes);
    assert_eq!(1, msgs[1].type_id);
    assert!(msgs[1].bytes.is_empty());
}

#[test]
fn stitch_decoder_keeps_partial_message() {
    let a = StitchMessage { type_id: 42, bytes: vec![4, 2] }.encode().unwrap();
    let mut decoder = StreamDecoder::new();
    let split = a.len() - 1;
    assert!(decoder.feed(&a[..split]).is_empty());
    let msgs = decoder.feed(&a[split..]);
    assert_eq!(1, msgs.len());
    assert_eq!(42, msgs[0].type_id);
    assert_eq!(vec![4, 2], msgs[0].bytes);
    assert!(decoder.feed(&[]).is_empty());
}

#[test]
fn stitch_decoder_reads_byte_by_byte_as_at_once() {
    let mut stream = Vec::new();
    for (tag, payload) in [(1u64, vec![1u8]), (70000, vec![9, 9, 9, 9]), (2, vec![])] {
        stream.extend_from_slice(&StitchMessage { type_id: tag, bytes: payload }.encode().unwrap());
    }

    let mut whole = StreamDecoder::new();
    let at_once: Vec<(u64, Vec<u8>)> =
        whole.feed(&stream).into_iter().map(|m| (m.type_id, m.bytes)).collect();

    let mut piecewise = StreamDecoder::new();
    let mut by_byte = Vec::new();
    for b in &stream {
        for m in piecewise.feed(std::slice::from_ref(b)) {
            by_byte.push((m.type_id, m.bytes));
        }
    }

    assert_eq!(3, at_once.len());
    assert_eq!(at_once, by_byte);
    assert_eq!((70000, vec![9, 9, 9, 9]), at_once[1]);
}

#[test]
fn stitch_stream_round_trip_keeps_high_bytes_and_large_tags() {
    let sent = vec![
        (u64::MAX, vec![0u8, 127, 128, 200, 255]),
        (0, vec![]),
        (1 << 40, (0..=255u8).collect::<Vec<u8>>()),
    ];
    let mut stream = Vec::new();
    for (tag, payload) in &sent {
        stream.extend_from_slice(&StitchMessage { type_id: *tag, bytes: payload.clone() }.encode().unwrap());
    }

    let mut decoder = StreamDecoder::new();
    let received: Vec<(u64, Vec<u8>)> =
        decoder.feed(&stream).into_iter().map(|m| (m.type_id, m.bytes)).collect();
    assert_eq!(sent, received);
    assert!(decoder.feed(&[]).is_empty());
}
