//! From captured datagrams to messages: the TCP payload of an IPv4 datagram,
//! the frames that payloads carry across segment boundaries, and the way from
//! a frame to the message inside it.

use crate::opcode::{opcode_of, Opcode, OpcodeTable};
use crate::parser::{le_u16, le_u32};
use vstd::prelude::*;
use vstd::slice::slice_subrange;

verus! {

/// Bytes of a frame before its payload.
pub const FRAME_HEADER_LEN: usize = 8;

/// Length of the shortest frame: a header and one byte of payload.
pub const MIN_FRAME_LEN: usize = 9;

/// Bytes at the start of every unpacked payload that belong to no message.
pub const MESSAGE_OFFSET: usize = 16;

/// Why a datagram carries no TCP payload for the meter.
#[derive(Debug, Copy, Clone, PartialEq, Eq, Structural)]
pub enum DatagramError {
    /// The version field is not 4.
    NotIpv4,
    /// The protocol field is not 6.
    NotTcp,
    /// The lengths in the headers do not fit the datagram.
    Truncated,
}

/// Length of the IPv4 header: four times the low nibble of the first byte.
pub open spec fn ip_header_len(d: Seq<u8>) -> int {
    4 * (d[0] as int % 16)
}

/// Total length that the IPv4 header states, high byte first.
pub open spec fn ip_total_len(d: Seq<u8>) -> int {
    0x100 * d[2] + d[3]
}

/// Offset of the TCP payload: behind the IPv4 header and the TCP header,
/// whose length is four times the high nibble of its thirteenth byte.
pub open spec fn tcp_payload_start(d: Seq<u8>) -> int {
    ip_header_len(d) + 4 * (d[ip_header_len(d) + 12] as int / 16)
}

/// Whether the header lengths of a datagram lie inside it and in order.
pub open spec fn datagram_fits(d: Seq<u8>) -> bool {
    &&& ip_header_len(d) + 12 < d.len()
    &&& tcp_payload_start(d) <= ip_total_len(d) <= d.len()
}

/// What a datagram is to the meter: its TCP payload, or the reason why it has
/// none.
pub open spec fn tcp_payload_of(d: Seq<u8>) -> Result<Seq<u8>, DatagramError> {
    if d.len() < 10 {
        Err(DatagramError::Truncated)
    } else if d[0] as int / 16 != 4 {
        Err(DatagramError::NotIpv4)
    } else if d[9] != 6 {
        Err(DatagramError::NotTcp)
    } else if !datagram_fits(d) {
        Err(DatagramError::Truncated)
    } else {
        Ok(d.subrange(tcp_payload_start(d), ip_total_len(d)))
    }
}

/// Slices the TCP payload out of an IPv4 datagram.
pub fn tcp_payload(datagram: &[u8]) -> (r: Result<&[u8], DatagramError>)
    ensures
        match (r, tcp_payload_of(datagram@)) {
            (Ok(payload), Ok(bytes)) => payload@ == bytes,
            (Err(e), Err(f)) => e == f,
            _ => false,
        },
{
    if datagram.len() < 10 {
        return Err(DatagramError::Truncated);
    }
    if datagram[0] / 16 != 4 {
        return Err(DatagramError::NotIpv4);
    }
    if datagram[9] != 6 {
        return Err(DatagramError::NotTcp);
    }
    let ip_header: usize = 4 * ((datagram[0] % 16) as usize);
    let total: usize = 0x100 * (datagram[2] as usize) + datagram[3] as usize;
    if ip_header + 12 >= datagram.len() {
        return Err(DatagramError::Truncated);
    }
    let start: usize = ip_header + 4 * ((datagram[ip_header + 12] / 16) as usize);
    if start > total || total > datagram.len() {
        return Err(DatagramError::Truncated);
    }
    Ok(slice_subrange(datagram, start, total))
}

/// Whether the first eight bytes of a buffer are the header of a frame: the
/// sentinel byte is 1 and the stated length covers at least one payload byte.
pub open spec fn header_ok(buf: Seq<u8>) -> bool {
    buf[7] == 1 && le_u16(buf) >= MIN_FRAME_LEN
}

/// Whether `frame` is one whole frame: as long as its header states.
pub open spec fn is_frame(frame: Seq<u8>) -> bool {
    frame.len() >= MIN_FRAME_LEN && header_ok(frame) && le_u16(frame) == frame.len()
}

/// What a buffer splits into.
pub struct Split {
    /// The whole frames at the start of the buffer, in order.
    pub frames: Seq<Seq<u8>>,
    /// What is kept for the bytes to come.
    pub carry: Seq<u8>,
}

/// Splits a buffer into frames. Whole frames are taken from the start as long
/// as there are any. A start that is no header loses the rest of the buffer;
/// a start that may yet become a frame is kept.
pub open spec fn split_frames(buf: Seq<u8>) -> Split
    decreases buf.len(),
{
    if buf.len() < FRAME_HEADER_LEN {
        Split { frames: Seq::empty(), carry: buf }
    } else if !header_ok(buf) {
        Split { frames: Seq::empty(), carry: Seq::empty() }
    } else if le_u16(buf) > buf.len() {
        Split { frames: Seq::empty(), carry: buf }
    } else {
        let rest = split_frames(buf.skip(le_u16(buf)));
        Split { frames: seq![buf.take(le_u16(buf))] + rest.frames, carry: rest.carry }
    }
}

/// The bytes of each frame.
pub open spec fn frames_view(frames: Seq<Vec<u8>>) -> Seq<Seq<u8>> {
    frames.map_values(|f: Vec<u8>| f@)
}

/// Collects the frames of one connection from the payloads of its segments.
pub struct Reassembler {
    carry: Vec<u8>,
}

impl View for Reassembler {
    type V = Seq<u8>;

    /// The bytes kept from earlier segments.
    closed spec fn view(&self) -> Seq<u8> {
        self.carry@
    }
}

impl Reassembler {
    pub fn new() -> (r: Self)
        ensures
            r@ == Seq::<u8>::empty(),
    {
        Reassembler { carry: Vec::new() }
    }

    /// Number of bytes kept from earlier segments.
    pub fn pending(&self) -> (n: usize)
        ensures
            n == self@.len(),
    {
        self.carry.len()
    }

    /// Takes the payload of the next segment and returns the frames that are
    /// whole now, in order.
    pub fn push_segment(&mut self, payload: &[u8]) -> (frames: Vec<Vec<u8>>)
        ensures
            frames_view(frames@) == split_frames(old(self)@ + payload@).frames,
            final(self)@ == split_frames(old(self)@ + payload@).carry,
            forall|i: int| 0 <= i < frames@.len() ==> is_frame(#[trigger] frames@[i]@),
    {
        let mut buf: Vec<u8> = Vec::new();
        std::mem::swap(&mut buf, &mut self.carry);
        let mut k: usize = 0;
        while k < payload.len()
            invariant
                0 <= k <= payload@.len(),
                buf@ == old(self)@ + payload@.take(k as int),
                self.carry@ == Seq::<u8>::empty(),
            decreases payload@.len() - k,
        {
            buf.push(payload[k]);
            k = k + 1;
        }
        assert(payload@.take(payload@.len() as int) =~= payload@);
        let ghost total = buf@;
        let mut frames: Vec<Vec<u8>> = Vec::new();
        let mut pos: usize = 0;
        proof {
            assert(total.skip(0) =~= total);
            assert(frames_view(frames@) =~= Seq::<Seq<u8>>::empty());
            assert(frames_view(frames@) + split_frames(total).frames =~= split_frames(
                total,
            ).frames);
        }
        loop
            invariant_except_break
                buf@ == total,
                0 <= pos <= total.len(),
                self.carry@ == Seq::<u8>::empty(),
                split_frames(total).frames == frames_view(frames@) + split_frames(
                    total.skip(pos as int),
                ).frames,
                split_frames(total).carry == split_frames(total.skip(pos as int)).carry,
                forall|i: int| 0 <= i < frames@.len() ==> is_frame(#[trigger] frames@[i]@),
            ensures
                frames_view(frames@) == split_frames(total).frames,
                self.carry@ == split_frames(total).carry,
                forall|i: int| 0 <= i < frames@.len() ==> is_frame(#[trigger] frames@[i]@),
            decreases total.len() - pos,
        {
            let ghost rest = total.skip(pos as int);
            let left = buf.len() - pos;
            if left < FRAME_HEADER_LEN {
                copy_range(&buf, pos, buf.len(), &mut self.carry);
                proof {
                    assert(total.subrange(pos as int, total.len() as int) =~= rest);
                    assert(frames_view(frames@) + Seq::<Seq<u8>>::empty() =~= frames_view(
                        frames@,
                    ));
                }
                break ;
            }
            let size = (buf[pos] as u16 + 0x100 * (buf[pos + 1] as u16)) as usize;
            assert(size == le_u16(rest));
            assert(buf[pos + 7] == rest[7]);
            if buf[pos + 7] != 1 || size < MIN_FRAME_LEN {
                proof {
                    assert(frames_view(frames@) + Seq::<Seq<u8>>::empty() =~= frames_view(
                        frames@,
                    ));
                }
                break ;
            }
            if size > left {
                copy_range(&buf, pos, buf.len(), &mut self.carry);
                proof {
                    assert(total.subrange(pos as int, total.len() as int) =~= rest);
                    assert(frames_view(frames@) + Seq::<Seq<u8>>::empty() =~= frames_view(
                        frames@,
                    ));
                }
                break ;
            }
            let mut frame: Vec<u8> = Vec::new();
            copy_range(&buf, pos, pos + size, &mut frame);
            proof {
                assert(frame@ =~= rest.take(size as int));
                assert(rest.skip(size as int) =~= total.skip(pos + size));
                let tail = split_frames(rest.skip(size as int)).frames;
                assert(frames_view(frames@.push(frame)) =~= frames_view(frames@) + seq![frame@]);
                assert((frames_view(frames@) + seq![frame@]) + tail =~= frames_view(frames@) + (
                seq![frame@] + tail));
                assert(frame@.len() == size);
                assert(frame@[7] == rest[7]);
                assert(le_u16(frame@) == le_u16(rest));
            }
            frames.push(frame);
            pos = pos + size;
        }
        frames
    }
}

/// Appends the bytes `from..to` of `src` to `dst`.
fn copy_range(src: &Vec<u8>, from: usize, to: usize, dst: &mut Vec<u8>)
    requires
        from <= to <= src@.len(),
    ensures
        final(dst)@ == old(dst)@ + src@.subrange(from as int, to as int),
{
    let mut i = from;
    while i < to
        invariant
            from <= i <= to <= src@.len(),
            dst@ == old(dst)@ + src@.subrange(from as int, i as int),
        decreases to - i,
    {
        dst.push(src[i]);
        proof {
            assert(src@.subrange(from as int, i as int).push(src@[i as int]) =~= src@.subrange(
                from as int,
                i + 1,
            ));
        }
        i = i + 1;
    }
}

/// The bytes of the parts, one after the other.
pub open spec fn concat(parts: Seq<Seq<u8>>) -> Seq<u8>
    decreases parts.len(),
{
    if parts.len() == 0 {
        Seq::empty()
    } else {
        parts[0] + concat(parts.skip(1))
    }
}

/// What the segments of one connection give when they are pushed in turn,
/// starting with `carry` kept from before.
pub open spec fn feed_all(carry: Seq<u8>, segments: Seq<Seq<u8>>) -> Split
    decreases segments.len(),
{
    if segments.len() == 0 {
        Split { frames: Seq::empty(), carry }
    } else {
        let first = split_frames(carry + segments[0]);
        let rest = feed_all(first.carry, segments.skip(1));
        Split { frames: first.frames + rest.frames, carry: rest.carry }
    }
}

/// Whether every part is one whole frame.
pub open spec fn all_frames(frames: Seq<Seq<u8>>) -> bool {
    forall|i: int| 0 <= i < frames.len() ==> is_frame(#[trigger] frames[i])
}

/// Number of the frames that lie wholly in the first `n` bytes of their
/// concatenation.
pub open spec fn whole_frames(frames: Seq<Seq<u8>>, n: int) -> int
    decreases frames.len(),
{
    if frames.len() == 0 || frames[0].len() > n {
        0
    } else {
        1 + whole_frames(frames.skip(1), n - frames[0].len())
    }
}

proof fn lemma_whole_frames_nonneg(frames: Seq<Seq<u8>>, n: int)
    ensures
        whole_frames(frames, n) >= 0,
    decreases frames.len(),
{
    if !(frames.len() == 0 || frames[0].len() > n) {
        lemma_whole_frames_nonneg(frames.skip(1), n - frames[0].len());
    }
}

proof fn lemma_concat_take(frames: Seq<Seq<u8>>, w: int)
    requires
        0 <= w <= frames.len(),
    ensures
        concat(frames) == concat(frames.take(w)) + concat(frames.skip(w)),
    decreases w,
{
    if w == 0 {
        assert(frames.take(0) =~= Seq::<Seq<u8>>::empty());
        assert(frames.skip(0) =~= frames);
        assert(concat(frames.take(0)) + concat(frames) =~= concat(frames));
    } else {
        let tail = frames.skip(1);
        lemma_concat_take(tail, w - 1);
        assert(frames.take(w).skip(1) =~= tail.take(w - 1));
        assert(frames.skip(w) =~= tail.skip(w - 1));
        assert(frames.take(w)[0] == frames[0]);
        assert(frames[0] + (concat(tail.take(w - 1)) + concat(tail.skip(w - 1))) =~= (frames[0]
            + concat(tail.take(w - 1))) + concat(tail.skip(w - 1)));
    }
}

/// A prefix of a stream of whole frames splits into the frames that lie
/// wholly in it and the started frame behind them.
proof fn lemma_split_prefix(frames: Seq<Seq<u8>>, n: int)
    requires
        all_frames(frames),
        0 <= n <= concat(frames).len(),
    ensures
        ({
            let w = whole_frames(frames, n);
            let split = split_frames(concat(frames).take(n));
            &&& 0 <= w <= frames.len()
            &&& split.frames == frames.take(w)
            &&& concat(frames.take(w)) + split.carry == concat(frames).take(n)
            &&& split.carry.len() <= concat(frames.skip(w)).len()
            &&& split.carry == concat(frames.skip(w)).take(split.carry.len() as int)
            &&& whole_frames(frames.skip(w), split.carry.len() as int) == 0
        }),
    decreases frames.len(),
{
    let buf = concat(frames).take(n);
    if frames.len() == 0 {
        assert(buf =~= Seq::<u8>::empty());
        assert(frames.take(0) =~= Seq::<Seq<u8>>::empty());
        assert(frames.skip(0) =~= frames);
        assert(concat(frames.take(0)) + buf =~= buf);
    } else {
        let f = frames[0];
        let tail = frames.skip(1);
        assert(is_frame(f));
        assert(concat(frames) == f + concat(tail));
        if f.len() > n {
            // The first frame is not whole yet: everything is kept.
            assert(frames.take(0) =~= Seq::<Seq<u8>>::empty());
            assert(frames.skip(0) =~= frames);
            if n >= FRAME_HEADER_LEN {
                assert(buf[0] == f[0] && buf[1] == f[1] && buf[7] == f[7]);
                assert(le_u16(buf) == le_u16(f));
            }
            assert(split_frames(buf).frames =~= Seq::<Seq<u8>>::empty());
            assert(split_frames(buf).carry == buf);
            assert(concat(frames.take(0)) + buf =~= buf);
            assert(buf.take(buf.len() as int) =~= buf);
        } else {
            assert(buf[0] == f[0] && buf[1] == f[1] && buf[7] == f[7]);
            assert(le_u16(buf) == le_u16(f));
            assert(buf.take(f.len() as int) =~= f);
            assert(buf.skip(f.len() as int) =~= concat(tail).take(n - f.len()));
            assert(all_frames(tail)) by {
                assert forall|i: int| 0 <= i < tail.len() implies is_frame(#[trigger] tail[i]) by {
                    assert(tail[i] == frames[i + 1]);
                }
            }
            lemma_split_prefix(tail, n - f.len());
            let w1 = whole_frames(tail, n - f.len());
            let w = 1 + w1;
            let inner = split_frames(concat(tail).take(n - f.len()));
            assert(frames.take(w) =~= seq![f] + tail.take(w1));
            assert(frames.skip(w) =~= tail.skip(w1));
            assert(frames.take(w).skip(1) =~= tail.take(w1));
            assert(concat(frames.take(w)) == f + concat(tail.take(w1)));
            assert((f + concat(tail.take(w1))) + inner.carry =~= f + (concat(tail.take(w1))
                + inner.carry));
            assert(f + concat(tail).take(n - f.len()) =~= buf);
        }
    }
}

/// Frame reassembly does not depend on how the stream was cut into segments:
/// when the segments of a connection, put together, are a run of whole
/// frames, pushing them in turn gives exactly those frames, in order, and
/// keeps nothing behind.
pub proof fn lemma_reassembly(frames: Seq<Seq<u8>>, segments: Seq<Seq<u8>>)
    requires
        all_frames(frames),
        concat(segments) == concat(frames),
    ensures
        feed_all(Seq::empty(), segments) == (Split { frames, carry: Seq::empty() }),
{
    assert(Seq::<u8>::empty() + concat(segments) =~= concat(segments));
    assert(Seq::<u8>::empty() =~= concat(frames).take(0));
    lemma_feed(frames, Seq::empty(), segments);
}

proof fn lemma_feed(frames: Seq<Seq<u8>>, carry: Seq<u8>, segments: Seq<Seq<u8>>)
    requires
        all_frames(frames),
        carry + concat(segments) == concat(frames),
        whole_frames(frames, carry.len() as int) == 0,
    ensures
        feed_all(carry, segments) == (Split { frames, carry: Seq::empty() }),
    decreases segments.len(),
{
    if segments.len() == 0 {
        assert(concat(segments) =~= Seq::<u8>::empty());
        assert(carry + Seq::<u8>::empty() =~= carry);
        assert(carry == concat(frames));
        if frames.len() > 0 {
            assert(concat(frames) == frames[0] + concat(frames.skip(1)));
            assert(carry.len() == frames[0].len() + concat(frames.skip(1)).len());
            assert(whole_frames(frames, carry.len() as int) >= 1) by {
                lemma_whole_frames_nonneg(frames.skip(1), carry.len() - frames[0].len());
            }
            assert(false);
        }
        assert(carry =~= Seq::<u8>::empty());
        assert(frames =~= Seq::<Seq<u8>>::empty());
    } else {
        let s = segments[0];
        let rest = segments.skip(1);
        let buf = carry + s;
        let n = buf.len() as int;
        assert(concat(segments) == s + concat(rest));
        assert(carry + (s + concat(rest)) =~= buf + concat(rest));
        assert(buf =~= concat(frames).take(n));
        lemma_split_prefix(frames, n);
        let w = whole_frames(frames, n);
        let split = split_frames(buf);
        let later = frames.skip(w);
        lemma_concat_take(frames, w);
        assert(all_frames(later)) by {
            assert forall|i: int| 0 <= i < later.len() implies is_frame(#[trigger] later[i]) by {
                assert(later[i] == frames[i + w]);
            }
        }
        // The bytes behind the whole frames are the carry and the segments to come.
        let head = concat(frames.take(w));
        assert(head + split.carry == buf);
        assert((head + split.carry) + concat(rest) =~= head + (split.carry + concat(rest)));
        assert(head + (split.carry + concat(rest)) == head + concat(later));
        assert(split.carry + concat(rest) =~= concat(later)) by {
            let a = split.carry + concat(rest);
            let b = concat(later);
            assert((head + a).len() == (head + b).len());
            assert forall|i: int| 0 <= i < a.len() implies a[i] == b[i] by {
                assert((head + a)[head.len() + i] == a[i]);
                assert((head + b)[head.len() + i] == b[i]);
            }
        }
        lemma_feed(later, split.carry, rest);
        assert(frames.take(w) + later =~= frames);
    }
}

/// A start that is no header loses everything in the buffer: with a sentinel
/// byte other than 1, or a stated length under nine, nothing is kept.
pub proof fn lemma_bad_header_flushes(buf: Seq<u8>)
    requires
        buf.len() >= FRAME_HEADER_LEN,
        buf[7] != 1 || le_u16(buf) < MIN_FRAME_LEN,
    ensures
        split_frames(buf) == (Split { frames: Seq::empty(), carry: Seq::empty() }),
{
}

/// Size of the buffer that compressed payloads are unpacked into.
pub const UNPACK_BUFFER_LEN: usize = 65535;

/// Why a frame gives no message.
#[derive(Debug, Copy, Clone, PartialEq, Eq, Structural)]
pub enum FrameError {
    /// The frame is shorter than its header, or than the length stated there.
    ShortFrame,
    /// The compression method is none of 0, 2 and 3.
    UnknownCompression(u8),
    /// The unpacked payload is shorter than the sixteen bytes before a message.
    ShortPayload,
    /// The payload is no Snappy stream, or unpacks to more than the buffer holds.
    Snappy,
    /// The length in front of an Oodle payload is missing or more than the
    /// buffer holds.
    OodleLength,
}

/// How the payload of a frame is packed.
#[derive(Debug, Copy, Clone, PartialEq, Eq, Structural)]
pub enum Compression {
    Raw,
    Snappy,
    Oodle,
}

impl Compression {
    /// The method with the given wire value.
    pub open spec fn of_raw(method: u8) -> Option<Compression> {
        match method {
            0 => Some(Compression::Raw),
            2 => Some(Compression::Snappy),
            3 => Some(Compression::Oodle),
            _ => None,
        }
    }

    pub fn from_raw(method: u8) -> (r: Option<Self>)
        ensures
            r == Self::of_raw(method),
    {
        match method {
            0 => Some(Compression::Raw),
            2 => Some(Compression::Snappy),
            3 => Some(Compression::Oodle),
            _ => None,
        }
    }
}

/// The fixed fields at the start of a frame.
#[derive(Debug, Copy, Clone, PartialEq, Eq, Structural)]
pub struct FrameHeader {
    /// Length of the whole frame, header included.
    pub size: u16,
    /// Number of the packet.
    pub opcode: u16,
    /// Wire value of the compression method.
    pub compression: u8,
    /// Must be 1.
    pub sentinel: u8,
}

impl FrameHeader {
    /// The header that the first eight bytes stand for.
    pub open spec fn of_bytes(b: Seq<u8>) -> FrameHeader {
        FrameHeader {
            size: le_u16(b) as u16,
            opcode: le_u16(b.skip(4)) as u16,
            compression: b[6],
            sentinel: b[7],
        }
    }

    /// Reads the header of a frame; `None` where there are fewer than eight
    /// bytes.
    pub fn parse(frame: &[u8]) -> (r: Option<FrameHeader>)
        ensures
            r == if frame@.len() >= FRAME_HEADER_LEN {
                Some(Self::of_bytes(frame@))
            } else {
                None
            },
    {
        if frame.len() < FRAME_HEADER_LEN {
            return None;
        }
        Some(
            FrameHeader {
                size: frame[0] as u16 + 0x100 * (frame[1] as u16),
                opcode: frame[4] as u16 + 0x100 * (frame[5] as u16),
                compression: frame[6],
                sentinel: frame[7],
            },
        )
    }
}

/// The payload of a frame with the cipher taken off: byte `i` is combined by
/// exclusive or with the table byte at `(opcode + i) mod N`, `N` being the
/// length of the table.
pub open spec fn deobfuscated(payload: Seq<u8>, opcode: u16, table: Seq<u8>) -> Seq<u8> {
    Seq::new(payload.len(), |i: int| payload[i] ^ table[(opcode + i) % (table.len() as int)])
}

/// Takes the cipher off a payload in place.
pub fn deobfuscate(payload: &mut Vec<u8>, opcode: u16, table: &[u8])
    requires
        table@.len() > 0,
    ensures
        final(payload)@ == deobfuscated(old(payload)@, opcode, table@),
{
    let n = table.len();
    let mut k: usize = (opcode as usize) % n;
    let mut i: usize = 0;
    while i < payload.len()
        invariant
            n == table@.len(),
            n > 0,
            0 <= i <= payload@.len(),
            payload@.len() == old(payload)@.len(),
            k == (opcode + i) % (n as int),
            forall|j: int| 0 <= j < i ==> payload@[j] == deobfuscated(old(payload)@, opcode, table@)[j],
            forall|j: int| i <= j < payload@.len() ==> payload@[j] == old(payload)@[j],
        decreases payload@.len() - i,
    {
        let byte = payload[i] ^ table[k];
        payload.set(i, byte);
        proof {
            lemma_next_index(opcode + i, n as int);
        }
        k = if k + 1 == n {
            0
        } else {
            k + 1
        };
        i = i + 1;
    }
    assert(payload@ =~= deobfuscated(old(payload)@, opcode, table@));
}

proof fn lemma_next_index(x: int, n: int)
    requires
        0 <= x,
        0 < n,
    ensures
        (x + 1) % n == if x % n + 1 == n {
            0
        } else {
            x % n + 1
        },
{
    vstd::arithmetic::div_mod::lemma_fundamental_div_mod(x, n);
    vstd::arithmetic::div_mod::lemma_fundamental_div_mod(x + 1, n);
    vstd::arithmetic::div_mod::lemma_mod_pos_bound(x, n);
    vstd::arithmetic::div_mod::lemma_mod_pos_bound(x + 1, n);
    let q = x / n;
    let r = x % n;
    assert((q + 1) * n == n * q + n && q * n == n * q) by (nonlinear_arith);
    if r + 1 == n {
        vstd::arithmetic::div_mod::lemma_fundamental_div_mod_converse(x + 1, n, q + 1, 0);
    } else {
        vstd::arithmetic::div_mod::lemma_fundamental_div_mod_converse(x + 1, n, q, r + 1);
    }
}

/// The message inside an unpacked payload: what stands behind the first
/// sixteen bytes. A payload shorter than that holds none.
pub open spec fn message_of(unpacked: Seq<u8>) -> Result<Seq<u8>, FrameError> {
    if unpacked.len() < MESSAGE_OFFSET {
        Err(FrameError::ShortPayload)
    } else {
        Ok(unpacked.skip(MESSAGE_OFFSET as int))
    }
}

/// Cuts the message out of an unpacked payload.
pub fn strip_header(unpacked: &[u8]) -> (r: Result<Vec<u8>, FrameError>)
    ensures
        match (r, message_of(unpacked@)) {
            (Ok(message), Ok(bytes)) => message@ == bytes,
            (Err(e), Err(f)) => e == f,
            _ => false,
        },
{
    if unpacked.len() < MESSAGE_OFFSET {
        return Err(FrameError::ShortPayload);
    }
    let mut message: Vec<u8> = Vec::new();
    let mut i: usize = MESSAGE_OFFSET;
    while i < unpacked.len()
        invariant
            MESSAGE_OFFSET <= i <= unpacked@.len(),
            message@ == unpacked@.subrange(MESSAGE_OFFSET as int, i as int),
        decreases unpacked@.len() - i,
    {
        message.push(unpacked[i]);
        proof {
            assert(unpacked@.subrange(MESSAGE_OFFSET as int, i as int).push(unpacked@[i as int])
                =~= unpacked@.subrange(MESSAGE_OFFSET as int, i + 1));
        }
        i = i + 1;
    }
    assert(unpacked@.subrange(MESSAGE_OFFSET as int, unpacked@.len() as int) =~= unpacked@.skip(
        MESSAGE_OFFSET as int,
    ));
    Ok(message)
}

/// What a raw Snappy stream unpacks to; `None` for bytes that are no such
/// stream.
pub uninterp spec fn snappy_decoded(input: Seq<u8>) -> Option<Seq<u8>>;

#[verifier::external_type_specification]
#[verifier::external_body]
pub struct ExSnapError(snap::Error);

/// `snap::raw::Decoder::decompress`: unpacks a raw Snappy stream into the
/// start of `output` and returns the unpacked length. It fails where the
/// input is no such stream and where `output` is too short for it; the
/// length of `output` stays as it is.
#[verifier::external_body]
fn snappy_decompress(input: &[u8], output: &mut Vec<u8>) -> (r: Result<usize, snap::Error>)
    ensures
        final(output)@.len() == old(output)@.len(),
        match r {
            Ok(n) => n <= old(output)@.len() && snappy_decoded(input@) == Some(
                final(output)@.take(n as int),
            ),
            Err(_) => match snappy_decoded(input@) {
                Some(unpacked) => unpacked.len() > old(output)@.len(),
                None => true,
            },
        },
{
    snap::raw::Decoder::new().decompress(input, output.as_mut_slice())
}

/// What opening a frame gives.
#[derive(Debug)]
pub enum Opened {
    /// The packet is none that the table knows; nothing was done with the frame.
    Ignored,
    /// The message of a known packet, with the number of the packet.
    Message { opcode: Opcode, number: u16, bytes: Vec<u8> },
    /// The payload is packed with Oodle: `data` unpacks to `len` bytes, of
    /// which [`strip_header`] gives the message.
    Oodle { opcode: Opcode, number: u16, len: usize, data: Vec<u8> },
}

/// Mathematical content of [`Opened`].
pub enum OpenedView {
    Ignored,
    Message { opcode: Opcode, number: u16, bytes: Seq<u8> },
    Oodle { opcode: Opcode, number: u16, len: usize, data: Seq<u8> },
}

impl View for Opened {
    type V = OpenedView;

    open spec fn view(&self) -> OpenedView {
        match *self {
            Opened::Ignored => OpenedView::Ignored,
            Opened::Message { opcode, number, bytes } => OpenedView::Message {
                opcode,
                number,
                bytes: bytes@,
            },
            Opened::Oodle { opcode, number, len, data } => OpenedView::Oodle {
                opcode,
                number,
                len,
                data: data@,
            },
        }
    }
}

/// What an Oodle payload asks of the decoder: the first four bytes state the
/// unpacked length, low byte first, and the rest is the packed data. The
/// length has to cover the sixteen bytes before a message and to fit the
/// buffer.
pub open spec fn oodle_request(opcode: Opcode, number: u16, payload: Seq<u8>) -> Result<
    OpenedView,
    FrameError,
> {
    if payload.len() < 4 || le_u32(payload) > UNPACK_BUFFER_LEN {
        Err(FrameError::OodleLength)
    } else if le_u32(payload) < MESSAGE_OFFSET {
        Err(FrameError::ShortPayload)
    } else {
        Ok(
            OpenedView::Oodle {
                opcode,
                number,
                len: le_u32(payload) as usize,
                data: payload.skip(4),
            },
        )
    }
}

/// What a payload with its cipher taken off gives under a compression method.
pub open spec fn unpacked(opcode: Opcode, number: u16, method: u8, payload: Seq<u8>) -> Result<
    OpenedView,
    FrameError,
> {
    match Compression::of_raw(method) {
        Some(Compression::Raw) => match message_of(payload) {
            Ok(bytes) => Ok(OpenedView::Message { opcode, number, bytes }),
            Err(e) => Err(e),
        },
        Some(Compression::Snappy) => match snappy_decoded(payload) {
            Some(bytes) => if bytes.len() > UNPACK_BUFFER_LEN {
                Err(FrameError::Snappy)
            } else {
                match message_of(bytes) {
                    Ok(bytes) => Ok(OpenedView::Message { opcode, number, bytes }),
                    Err(e) => Err(e),
                }
            },
            None => Err(FrameError::Snappy),
        },
        Some(Compression::Oodle) => oodle_request(opcode, number, payload),
        None => Err(FrameError::UnknownCompression(method)),
    }
}

/// What opening a frame gives: a frame of an unknown packet is ignored
/// before anything else is looked at; of a known one the payload is the
/// bytes from the ninth up to the stated length, with the cipher taken off
/// and unpacked by the method in the header.
pub open spec fn opened(frame: Seq<u8>, table: Seq<u8>, opcodes: Seq<(u16, Opcode)>) -> Result<
    OpenedView,
    FrameError,
> {
    let header = FrameHeader::of_bytes(frame);
    if frame.len() < FRAME_HEADER_LEN || header.size < FRAME_HEADER_LEN || header.size
        > frame.len() {
        Err(FrameError::ShortFrame)
    } else {
        match opcode_of(opcodes, header.opcode) {
            None => Ok(OpenedView::Ignored),
            Some(opcode) => unpacked(
                opcode,
                header.opcode,
                header.compression,
                deobfuscated(
                    frame.subrange(FRAME_HEADER_LEN as int, header.size as int),
                    header.opcode,
                    table,
                ),
            ),
        }
    }
}

/// Opens frames: holds the cipher table, the numbers of the known packets
/// and the buffer that payloads are unpacked into.
pub struct Unpacker {
    xor_table: Vec<u8>,
    opcodes: OpcodeTable,
    buffer: Vec<u8>,
}

impl Unpacker {
    /// Whether the cipher table has a byte and the buffer its full size.
    pub closed spec fn wf(&self) -> bool {
        self.xor_table@.len() > 0 && self.buffer@.len() == UNPACK_BUFFER_LEN
    }

    /// The cipher table.
    pub closed spec fn table(&self) -> Seq<u8> {
        self.xor_table@
    }

    /// The numbers of the known packets.
    pub closed spec fn numbers(&self) -> Seq<(u16, Opcode)> {
        self.opcodes@
    }

    /// An unpacker for the given cipher table and packet numbers; `None` for
    /// an empty table.
    pub fn new(xor_table: Vec<u8>, opcodes: OpcodeTable) -> (r: Option<Self>)
        ensures
            match r {
                Some(unpacker) => xor_table@.len() > 0 && unpacker.wf() && unpacker.table()
                    == xor_table@ && unpacker.numbers() == opcodes@,
                None => xor_table@.len() == 0,
            },
    {
        if xor_table.len() == 0 {
            return None;
        }
        let mut buffer: Vec<u8> = Vec::new();
        while buffer.len() < UNPACK_BUFFER_LEN
            invariant
                buffer@.len() <= UNPACK_BUFFER_LEN,
            decreases UNPACK_BUFFER_LEN - buffer@.len(),
        {
            buffer.push(0);
        }
        Some(Unpacker { xor_table, opcodes, buffer })
    }

    /// Opens one frame.
    pub fn open(&mut self, frame: &[u8]) -> (r: Result<Opened, FrameError>)
        requires
            old(self).wf(),
        ensures
            final(self).wf(),
            final(self).table() == old(self).table(),
            final(self).numbers() == old(self).numbers(),
            match (r, opened(frame@, old(self).table(), old(self).numbers())) {
                (Ok(o), Ok(v)) => o@ == v,
                (Err(e), Err(f)) => e == f,
                _ => false,
            },
    {
        let header = match FrameHeader::parse(frame) {
            Some(header) => header,
            None => {
                return Err(FrameError::ShortFrame);
            },
        };
        let size = header.size as usize;
        if size < FRAME_HEADER_LEN || size > frame.len() {
            return Err(FrameError::ShortFrame);
        }
        let opcode = match self.opcodes.from_u16(header.opcode) {
            Some(opcode) => opcode,
            None => {
                return Ok(Opened::Ignored);
            },
        };
        let mut payload: Vec<u8> = Vec::new();
        copy_slice_range(frame, FRAME_HEADER_LEN, size, &mut payload);
        deobfuscate(&mut payload, header.opcode, self.xor_table.as_slice());
        match Compression::from_raw(header.compression) {
            Some(Compression::Raw) => {
                let bytes = strip_header(payload.as_slice())?;
                Ok(Opened::Message { opcode, number: header.opcode, bytes })
            },
            Some(Compression::Snappy) => {
                let n = match snappy_decompress(payload.as_slice(), &mut self.buffer) {
                    Ok(n) => n,
                    Err(_) => {
                        return Err(FrameError::Snappy);
                    },
                };
                let bytes = strip_header(slice_subrange(self.buffer.as_slice(), 0, n))?;
                Ok(Opened::Message { opcode, number: header.opcode, bytes })
            },
            Some(Compression::Oodle) => {
                if payload.len() < 4 {
                    return Err(FrameError::OodleLength);
                }
                let len: u32 = payload[0] as u32 + 0x100 * (payload[1] as u32) + 0x1_0000 * (
                payload[2] as u32) + 0x100_0000 * (payload[3] as u32);
                if len > UNPACK_BUFFER_LEN as u32 {
                    return Err(FrameError::OodleLength);
                }
                if len < MESSAGE_OFFSET as u32 {
                    return Err(FrameError::ShortPayload);
                }
                let mut data: Vec<u8> = Vec::new();
                copy_range(&payload, 4, payload.len(), &mut data);
                proof {
                    assert(payload@.subrange(4, payload@.len() as int) =~= payload@.skip(4));
                }
                Ok(Opened::Oodle { opcode, number: header.opcode, len: len as usize, data })
            },
            None => Err(FrameError::UnknownCompression(header.compression)),
        }
    }
}

/// Appends the bytes `from..to` of `src` to `dst`.
fn copy_slice_range(src: &[u8], from: usize, to: usize, dst: &mut Vec<u8>)
    requires
        from <= to <= src@.len(),
    ensures
        final(dst)@ == old(dst)@ + src@.subrange(from as int, to as int),
{
    let mut i = from;
    while i < to
        invariant
            from <= i <= to <= src@.len(),
            dst@ == old(dst)@ + src@.subrange(from as int, i as int),
        decreases to - i,
    {
        dst.push(src[i]);
        proof {
            assert(src@.subrange(from as int, i as int).push(src@[i as int]) =~= src@.subrange(
                from as int,
                i + 1,
            ));
        }
        i = i + 1;
    }
}

} // verus!
