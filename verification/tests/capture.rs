use larps::capture::{
    deobfuscate, strip_header, tcp_payload, Compression, DatagramError, FrameError, FrameHeader,
    Opened, Reassembler, Unpacker, FRAME_HEADER_LEN, MESSAGE_OFFSET, MIN_FRAME_LEN,
    UNPACK_BUFFER_LEN,
};
use larps::opcode::{Opcode, OpcodeTable};

fn datagram(ihl: u8, data_offset: u8, protocol: u8, payload: &[u8]) -> Vec<u8> {
    let ip_len = 4 * ihl as usize;
    let tcp_len = 4 * data_offset as usize;
    let total = ip_len + tcp_len + payload.len();
    let mut d = vec![0u8; total];
    d[0] = 0x40 | ihl;
    d[2] = (total >> 8) as u8;
    d[3] = total as u8;
    d[9] = protocol;
    d[ip_len + 12] = data_offset << 4;
    d[ip_len + tcp_len..].copy_from_slice(payload);
    d
}

fn frame(opcode: u16, method: u8, sentinel: u8, payload: &[u8]) -> Vec<u8> {
    let size = (FRAME_HEADER_LEN + payload.len()) as u16;
    let mut f = Vec::new();
    f.extend_from_slice(&size.to_le_bytes());
    f.extend_from_slice(&[0, 0]);
    f.extend_from_slice(&opcode.to_le_bytes());
    f.push(method);
    f.push(sentinel);
    f.extend_from_slice(payload);
    f
}

fn table() -> OpcodeTable {
    OpcodeTable::new(vec![(100, Opcode::InitEnv), (200, Opcode::NewPc), (100, Opcode::NewNpc)])
}

fn message_of(opened: Opened) -> (Opcode, Vec<u8>) {
    match opened {
        Opened::Message { opcode, bytes, .. } => (opcode, bytes),
        other => panic!("no message: {:?}", other),
    }
}

#[test]
fn tcp_payload_is_sliced_by_the_header_lengths() {
    let d = datagram(5, 5, 6, &[1, 2, 3]);
    assert_eq!(tcp_payload(&d), Ok(&[1u8, 2, 3][..]));
    // options in both headers
    let d = datagram(6, 8, 6, &[9]);
    assert_eq!(tcp_payload(&d), Ok(&[9u8][..]));
    // bytes behind the stated total length are no payload
    let mut d = datagram(5, 5, 6, &[1, 2, 3]);
    d.extend_from_slice(&[7, 7]);
    assert_eq!(tcp_payload(&d), Ok(&[1u8, 2, 3][..]));
    // no payload at all
    let d = datagram(5, 5, 6, &[]);
    assert_eq!(tcp_payload(&d), Ok(&[][..]));
}

#[test]
fn tcp_payload_rejects_other_datagrams() {
    let mut d = datagram(5, 5, 6, &[1]);
    d[0] = 0x65;
    assert_eq!(tcp_payload(&d), Err(DatagramError::NotIpv4));
    let d = datagram(5, 5, 17, &[1]);
    assert_eq!(tcp_payload(&d), Err(DatagramError::NotTcp));
    assert_eq!(tcp_payload(&[0x45, 0, 0]), Err(DatagramError::Truncated));
    // the stated total length is more than there is
    let mut d = datagram(5, 5, 6, &[1]);
    d[3] += 1;
    assert_eq!(tcp_payload(&d), Err(DatagramError::Truncated));
    // the headers are longer than the stated total length
    let mut d = datagram(5, 5, 6, &[1]);
    d[3] = 30;
    assert_eq!(tcp_payload(&d), Err(DatagramError::Truncated));
    // the TCP header is cut off
    let d = datagram(5, 5, 6, &[]);
    assert_eq!(tcp_payload(&d[..30]), Err(DatagramError::Truncated));
}

#[test]
fn whole_frames_come_out_in_order() {
    let a = frame(1, 0, 1, &[1, 2, 3]);
    let b = frame(2, 0, 1, &[4]);
    let mut stream = a.clone();
    stream.extend_from_slice(&b);
    let mut r = Reassembler::new();
    assert_eq!(r.push_segment(&stream), vec![a, b]);
    assert_eq!(r.pending(), 0);
}

#[test]
fn frames_are_the_same_for_every_segmentation() {
    let frames = vec![
        frame(10, 0, 1, &[1]),
        frame(11, 2, 1, &[2; 40]),
        frame(12, 3, 1, &[3; 300]),
        frame(13, 0, 1, &[4, 5]),
    ];
    let stream: Vec<u8> = frames.iter().flatten().copied().collect();
    for cut in [1usize, 2, 3, 7, 8, 9, 10, 64, 333, stream.len()] {
        let mut r = Reassembler::new();
        let mut got = Vec::new();
        for segment in stream.chunks(cut) {
            got.extend(r.push_segment(segment));
        }
        assert_eq!(got, frames, "segments of {} bytes", cut);
        assert_eq!(r.pending(), 0);
        let opcodes: Vec<u16> = got.iter().map(|f| FrameHeader::parse(f).unwrap().opcode).collect();
        assert_eq!(opcodes, vec![10, 11, 12, 13]);
    }
}

#[test]
fn a_started_frame_is_kept_for_the_next_segment() {
    let a = frame(1, 0, 1, &[1, 2, 3, 4]);
    let mut r = Reassembler::new();
    assert_eq!(r.push_segment(&a[..5]), Vec::<Vec<u8>>::new());
    assert_eq!(r.pending(), 5);
    assert_eq!(r.push_segment(&[]), Vec::<Vec<u8>>::new());
    assert_eq!(r.pending(), 5);
    assert_eq!(r.push_segment(&a[5..10]), Vec::<Vec<u8>>::new());
    assert_eq!(r.pending(), 10);
    assert_eq!(r.push_segment(&a[10..]), vec![a]);
    assert_eq!(r.pending(), 0);
}

#[test]
fn a_wrong_sentinel_flushes_the_buffer() {
    let good = frame(1, 0, 1, &[1, 2]);
    let bad = frame(2, 0, 0, &[3, 4]);
    let mut stream = good.clone();
    stream.extend_from_slice(&bad);
    stream.extend_from_slice(&good);
    let mut r = Reassembler::new();
    // the frame before the bad one comes out; what follows is lost
    assert_eq!(r.push_segment(&stream), vec![good.clone()]);
    assert_eq!(r.pending(), 0);
    // the next read starts fresh
    assert_eq!(r.push_segment(&good), vec![good.clone()]);
    // a carry is flushed too
    assert_eq!(r.push_segment(&bad[..3]), Vec::<Vec<u8>>::new());
    assert_eq!(r.pending(), 3);
    assert_eq!(r.push_segment(&bad[3..]), Vec::<Vec<u8>>::new());
    assert_eq!(r.pending(), 0);
}

#[test]
fn a_frame_length_under_nine_flushes_the_buffer() {
    let mut short = frame(1, 0, 1, &[]);
    assert_eq!(short.len(), 8);
    short.extend_from_slice(&[9, 9, 9]);
    let mut r = Reassembler::new();
    assert_eq!(r.push_segment(&short), Vec::<Vec<u8>>::new());
    assert_eq!(r.pending(), 0);
}

#[test]
fn the_shortest_frame_has_one_payload_byte() {
    let f = frame(100, 0, 1, &[7]);
    assert_eq!(f.len(), MIN_FRAME_LEN);
    let mut r = Reassembler::new();
    assert_eq!(r.push_segment(&f), vec![f.clone()]);
    // one byte of payload cannot hold the sixteen bytes before a message
    let mut u = Unpacker::new(vec![0], table()).unwrap();
    assert_eq!(u.open(&f).unwrap_err(), FrameError::ShortPayload);
}

#[test]
fn frame_header_fields() {
    let f = frame(0x1234, 2, 1, &[0; 5]);
    assert_eq!(
        FrameHeader::parse(&f),
        Some(FrameHeader { size: 13, opcode: 0x1234, compression: 2, sentinel: 1 })
    );
    assert_eq!(FrameHeader::parse(&f[..7]), None);
    assert_eq!(Compression::from_raw(0), Some(Compression::Raw));
    assert_eq!(Compression::from_raw(1), None);
    assert_eq!(Compression::from_raw(2), Some(Compression::Snappy));
    assert_eq!(Compression::from_raw(3), Some(Compression::Oodle));
    assert_eq!(Compression::from_raw(4), None);
}

#[test]
fn deobfuscate_xors_with_the_table_from_the_opcode_on() {
    let table = [0x01u8, 0x02, 0x04];
    let mut payload = vec![0u8, 0, 0, 0, 0xff];
    // opcode 7: 7 mod 3 = 1, so the table is used from its second byte on
    deobfuscate(&mut payload, 7, &table);
    assert_eq!(payload, vec![0x02, 0x04, 0x01, 0x02, 0xff ^ 0x04]);
    // twice is the identity
    deobfuscate(&mut payload, 7, &table);
    assert_eq!(payload, vec![0, 0, 0, 0, 0xff]);
    let mut nothing: Vec<u8> = vec![];
    deobfuscate(&mut nothing, 65535, &[9]);
    assert!(nothing.is_empty());
}

#[test]
fn strip_header_drops_sixteen_bytes() {
    let mut unpacked = vec![0u8; MESSAGE_OFFSET];
    unpacked.extend_from_slice(&[1, 2, 3]);
    assert_eq!(strip_header(&unpacked), Ok(vec![1, 2, 3]));
    assert_eq!(strip_header(&unpacked[..16]), Ok(vec![]));
    assert_eq!(strip_header(&unpacked[..15]), Err(FrameError::ShortPayload));
}

#[test]
fn unpacker_needs_a_cipher_table() {
    assert!(Unpacker::new(vec![], table()).is_none());
    assert!(Unpacker::new(vec![1], table()).is_some());
}

#[test]
fn opcode_table_takes_the_first_entry() {
    let t = table();
    assert_eq!(t.from_u16(100), Some(Opcode::InitEnv));
    assert_eq!(t.from_u16(200), Some(Opcode::NewPc));
    assert_eq!(t.from_u16(300), None);
    assert_eq!(t.to_u16(Opcode::NewNpc), Some(100));
    assert_eq!(t.to_u16(Opcode::NewPc), Some(200));
    assert_eq!(t.to_u16(Opcode::RaidResult), None);
}

#[test]
fn raw_frames_open_to_their_message() {
    let xor = vec![0x10u8, 0x20, 0x30];
    let mut payload = vec![0u8; 16];
    payload.extend_from_slice(&[1, 2, 3]);
    let mut wire = payload.clone();
    deobfuscate(&mut wire, 200, &xor);
    let f = frame(200, 0, 1, &wire);
    let mut u = Unpacker::new(xor, table()).unwrap();
    assert_eq!(message_of(u.open(&f).unwrap()), (Opcode::NewPc, vec![1, 2, 3]));
}

#[test]
fn unknown_packets_are_ignored_before_anything_else() {
    // the compression method is unknown too, but the packet goes first
    let f = frame(999, 9, 1, &[0]);
    let mut u = Unpacker::new(vec![1], table()).unwrap();
    assert!(matches!(u.open(&f), Ok(Opened::Ignored)));
}

#[test]
fn unknown_compression_is_an_error() {
    let f = frame(100, 1, 1, &[0; 20]);
    let mut u = Unpacker::new(vec![1], table()).unwrap();
    assert_eq!(u.open(&f).unwrap_err(), FrameError::UnknownCompression(1));
    let f = frame(100, 4, 1, &[0; 20]);
    assert_eq!(u.open(&f).unwrap_err(), FrameError::UnknownCompression(4));
}

#[test]
fn short_frames_are_an_error() {
    let mut u = Unpacker::new(vec![1], table()).unwrap();
    assert_eq!(u.open(&[1, 2, 3]).unwrap_err(), FrameError::ShortFrame);
    let f = frame(100, 0, 1, &[0; 20]);
    assert_eq!(u.open(&f[..20]).unwrap_err(), FrameError::ShortFrame);
    let mut tiny = frame(100, 0, 1, &[0; 20]);
    tiny[0] = 7;
    assert_eq!(u.open(&tiny).unwrap_err(), FrameError::ShortFrame);
}

#[test]
fn snappy_frames_are_unpacked() {
    let xor = vec![0x5au8, 0xa5];
    let mut plain = vec![0u8; 16];
    plain.extend_from_slice(b"the message, the message, the message, the message");
    let packed = snap::raw::Encoder::new().compress_vec(&plain).unwrap();
    assert_ne!(packed, plain);
    let mut wire = packed.clone();
    deobfuscate(&mut wire, 100, &xor);
    let f = frame(100, 2, 1, &wire);
    let mut u = Unpacker::new(xor, table()).unwrap();
    let (opcode, bytes) = message_of(u.open(&f).unwrap());
    assert_eq!(opcode, Opcode::InitEnv);
    assert_eq!(bytes, plain[16..].to_vec());
    // the unpacker can be used again
    let (_, bytes) = message_of(u.open(&f).unwrap());
    assert_eq!(bytes, plain[16..].to_vec());
}

#[test]
fn bad_snappy_frames_are_an_error() {
    let mut u = Unpacker::new(vec![0], table()).unwrap();
    // a literal that runs past the end
    let f = frame(100, 2, 1, &[40, 0xfc, 1, 2]);
    assert_eq!(u.open(&f).unwrap_err(), FrameError::Snappy);
    // more than the buffer holds
    let big = vec![7u8; UNPACK_BUFFER_LEN + 1];
    let packed = snap::raw::Encoder::new().compress_vec(&big).unwrap();
    let f = frame(100, 2, 1, &packed);
    assert_eq!(u.open(&f).unwrap_err(), FrameError::Snappy);
    // a valid stream that is too short for a message
    let packed = snap::raw::Encoder::new().compress_vec(&[1, 2, 3]).unwrap();
    let f = frame(100, 2, 1, &packed);
    assert_eq!(u.open(&f).unwrap_err(), FrameError::ShortPayload);
    // a stream that fills the buffer to the last byte
    let full = vec![7u8; UNPACK_BUFFER_LEN];
    let packed = snap::raw::Encoder::new().compress_vec(&full).unwrap();
    let f = frame(100, 2, 1, &packed);
    let (_, bytes) = message_of(u.open(&f).unwrap());
    assert_eq!(bytes.len(), UNPACK_BUFFER_LEN - 16);
}

#[test]
fn oodle_frames_ask_for_the_decoder() {
    let mut u = Unpacker::new(vec![0], table()).unwrap();
    let mut payload = 300u32.to_le_bytes().to_vec();
    payload.extend_from_slice(&[1, 2, 3]);
    let f = frame(200, 3, 1, &payload);
    match u.open(&f).unwrap() {
        Opened::Oodle { opcode, number, len, data } => {
            assert_eq!(opcode, Opcode::NewPc);
            assert_eq!(number, 200);
            assert_eq!(len, 300);
            assert_eq!(data, vec![1, 2, 3]);
        }
        other => panic!("no request: {:?}", other),
    }
    let f = frame(200, 3, 1, &[1, 2, 3]);
    assert_eq!(u.open(&f).unwrap_err(), FrameError::OodleLength);
    let mut payload = 65536u32.to_le_bytes().to_vec();
    payload.push(0);
    let f = frame(200, 3, 1, &payload);
    assert_eq!(u.open(&f).unwrap_err(), FrameError::OodleLength);
    let mut payload = 15u32.to_le_bytes().to_vec();
    payload.push(0);
    let f = frame(200, 3, 1, &payload);
    assert_eq!(u.open(&f).unwrap_err(), FrameError::ShortPayload);
}
