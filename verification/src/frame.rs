//! The packet framer: serializes one chunk (or the terminal marker) into a
//! complete UDP datagram, and decodes such a datagram back into its fields.
//!
//! Wire layout (multi-byte header fields in network byte order):
//! `[udp header: 8B][session_id: 16B][sequence_field: 8B BE][format_signal: 2B][aux_data: 14B][chunk: 0..CHUNK_SIZE B]`
//! The UDP checksum field is written as zero, which UDP over IPv4 defines as
//! "no checksum computed".

use vstd::prelude::*;

verus! {

/// Size in bytes of the UDP header that precedes the protocol fields.
pub const HEADER_SIZE: usize = 8;

/// Size in bytes of the session identifier field.
pub const SESSION_ID_LEN: usize = 16;

/// Size in bytes of the sequence field.
pub const SEQ_FIELD_LEN: usize = 8;

/// Size in bytes of the format-signal field.
pub const FORMAT_SIGNAL_LEN: usize = 2;

/// Size in bytes of the auxiliary-data field.
pub const AUX_DATA_LEN: usize = 14;

/// Size in bytes of everything in a frame except the chunk itself.
pub const FIXED_FRAME_LEN: usize = 48;

/// The two big-endian bytes of a 16-bit value.
pub open spec fn be16(x: u16) -> Seq<u8> {
    seq![((x >> 8) & 0xff) as u8, (x & 0xff) as u8]
}

/// The 16-bit value read back from two big-endian bytes.
pub open spec fn be16_val(s: Seq<u8>) -> u16 {
    ((s[0] as u16) << 8) | (s[1] as u16)
}

/// The eight big-endian bytes of a 64-bit value.
pub open spec fn be64(x: u64) -> Seq<u8> {
    seq![
        ((x >> 56) & 0xff) as u8,
        ((x >> 48) & 0xff) as u8,
        ((x >> 40) & 0xff) as u8,
        ((x >> 32) & 0xff) as u8,
        ((x >> 24) & 0xff) as u8,
        ((x >> 16) & 0xff) as u8,
        ((x >> 8) & 0xff) as u8,
        (x & 0xff) as u8,
    ]
}

/// The 64-bit value read back from eight big-endian bytes.
pub open spec fn be64_val(s: Seq<u8>) -> u64 {
    ((s[0] as u64) << 56) | ((s[1] as u64) << 48) | ((s[2] as u64) << 40) | ((s[3] as u64) << 32)
        | ((s[4] as u64) << 24) | ((s[5] as u64) << 16) | ((s[6] as u64) << 8) | (s[7] as u64)
}

/// Decoding the big-endian bytes of a 16-bit value gives the value back.
pub proof fn lemma_be16_round_trip(x: u16)
    ensures
        be16(x).len() == 2,
        be16_val(be16(x)) == x,
{
    assert((((((x >> 8) & 0xff) as u8) as u16) << 8) | ((((x & 0xff) as u8) as u16)) == x)
        by (bit_vector);
}

/// Decoding the big-endian bytes of a 64-bit value gives the value back.
pub proof fn lemma_be64_round_trip(x: u64)
    ensures
        be64(x).len() == 8,
        be64_val(be64(x)) == x,
{
    assert(((((x >> 56) & 0xff) as u8 as u64) << 56) | ((((x >> 48) & 0xff) as u8 as u64) << 48)
        | ((((x >> 40) & 0xff) as u8 as u64) << 40) | ((((x >> 32) & 0xff) as u8 as u64) << 32)
        | ((((x >> 24) & 0xff) as u8 as u64) << 24) | ((((x >> 16) & 0xff) as u8 as u64) << 16)
        | ((((x >> 8) & 0xff) as u8 as u64) << 8) | (((x & 0xff) as u8 as u64)) == x)
        by (bit_vector);
}

/// The big-endian encoding of a data-chunk sequence number never collides
/// with the encoding of the end-of-transfer sentinel: every 32-bit counter
/// value stays strictly below the all-ones 64-bit sentinel.
pub proof fn lemma_sentinel_distinct(i: u32)
    ensures
        (i as u64) < crate::END_SIG,
        be64(i as u64) != be64(crate::END_SIG),
{
    lemma_be64_round_trip(i as u64);
    lemma_be64_round_trip(crate::END_SIG);
    assert((i as u64) < 0xFFFF_FFFF_FFFF_FFFFu64) by (bit_vector);
}

/// The 8-byte UDP header: source port, destination port, total datagram
/// length, and a zero checksum (legal for UDP over IPv4).
pub open spec fn udp_header(src_port: u16, dst_port: u16, total_len: u16) -> Seq<u8> {
    be16(src_port) + be16(dst_port) + be16(total_len) + seq![0u8, 0u8]
}

/// The full wire image of one frame.
pub open spec fn frame_bytes(
    src_port: u16,
    dst_port: u16,
    session_id: Seq<u8>,
    seq_field: Seq<u8>,
    format_signal: Seq<u8>,
    aux_data: Seq<u8>,
    chunk: Seq<u8>,
) -> Seq<u8> {
    udp_header(src_port, dst_port, (48 + chunk.len()) as u16) + session_id + seq_field
        + format_signal + aux_data + chunk
}

/// Serializes one frame into `buffer`, which the caller must have pre-sized
/// to exactly the frame length. Writes the UDP header, then the fields in
/// their fixed order, with no padding between them.
pub fn build_frame(
    buffer: &mut Vec<u8>,
    src_port: u16,
    dst_port: u16,
    session_id: &Vec<u8>,
    seq_field: &Vec<u8>,
    format_signal: &Vec<u8>,
    aux_data: &Vec<u8>,
    chunk: &Vec<u8>,
) -> (total_len: usize)
    requires
        old(buffer)@.len() == FIXED_FRAME_LEN + chunk@.len(),
        session_id@.len() == SESSION_ID_LEN,
        seq_field@.len() == SEQ_FIELD_LEN,
        format_signal@.len() == FORMAT_SIGNAL_LEN,
        aux_data@.len() == AUX_DATA_LEN,
        chunk@.len() <= crate::CHUNK_SIZE,
    ensures
        final(buffer)@ == frame_bytes(
            src_port,
            dst_port,
            session_id@,
            seq_field@,
            format_signal@,
            aux_data@,
            chunk@,
        ),
        final(buffer)@.len() == old(buffer)@.len(),
        total_len == final(buffer)@.len(),
{
    let chunk_len = chunk.len();
    let total: u16 = (48 + chunk_len) as u16;
    buffer.clear();
    buffer.push(((src_port >> 8) & 0xff) as u8);
    buffer.push((src_port & 0xff) as u8);
    buffer.push(((dst_port >> 8) & 0xff) as u8);
    buffer.push((dst_port & 0xff) as u8);
    buffer.push(((total >> 8) & 0xff) as u8);
    buffer.push((total & 0xff) as u8);
    buffer.push(0u8);
    buffer.push(0u8);
    buffer.extend_from_slice(session_id.as_slice());
    buffer.extend_from_slice(seq_field.as_slice());
    buffer.extend_from_slice(format_signal.as_slice());
    buffer.extend_from_slice(aux_data.as_slice());
    buffer.extend_from_slice(chunk.as_slice());
    proof {
        assert(buffer@ =~= frame_bytes(
            src_port,
            dst_port,
            session_id@,
            seq_field@,
            format_signal@,
            aux_data@,
            chunk@,
        ));
    }
    48 + chunk_len
}

/// The eight big-endian bytes of a 64-bit value, as a fresh vector.
pub fn u64_to_be(x: u64) -> (v: Vec<u8>)
    ensures
        v@ == be64(x),
{
    let mut v: Vec<u8> = Vec::new();
    v.push(((x >> 56) & 0xff) as u8);
    v.push(((x >> 48) & 0xff) as u8);
    v.push(((x >> 40) & 0xff) as u8);
    v.push(((x >> 32) & 0xff) as u8);
    v.push(((x >> 24) & 0xff) as u8);
    v.push(((x >> 16) & 0xff) as u8);
    v.push(((x >> 8) & 0xff) as u8);
    v.push((x & 0xff) as u8);
    proof {
        assert(v@ =~= be64(x));
    }
    v
}

/// The fields recovered from one frame's wire image.
pub struct DecodedFrame {
    pub src_port: u16,
    pub dst_port: u16,
    pub total_len: u16,
    pub session_id: Vec<u8>,
    pub seq_field: u64,
    pub format_signal: Vec<u8>,
    pub aux_data: Vec<u8>,
    pub chunk: Vec<u8>,
}

/// Reads the fields of a frame back out of its wire image: each output is
/// exactly the corresponding byte range of `frame`, and the port, length and
/// sequence fields are the big-endian values of theirs.
pub fn decode_frame(frame: &Vec<u8>) -> (d: DecodedFrame)
    requires
        frame@.len() >= FIXED_FRAME_LEN,
    ensures
        d.src_port == be16_val(frame@.subrange(0, 2)),
        d.dst_port == be16_val(frame@.subrange(2, 4)),
        d.total_len == be16_val(frame@.subrange(4, 6)),
        d.session_id@ == frame@.subrange(8, 24),
        d.seq_field == be64_val(frame@.subrange(24, 32)),
        d.format_signal@ == frame@.subrange(32, 34),
        d.aux_data@ == frame@.subrange(34, 48),
        d.chunk@ == frame@.subrange(48, frame@.len() as int),
{
    let src_port: u16 = ((frame[0] as u16) << 8) | (frame[1] as u16);
    let dst_port: u16 = ((frame[2] as u16) << 8) | (frame[3] as u16);
    let total_len: u16 = ((frame[4] as u16) << 8) | (frame[5] as u16);
    let seq_field: u64 = ((frame[24] as u64) << 56) | ((frame[25] as u64) << 48)
        | ((frame[26] as u64) << 40) | ((frame[27] as u64) << 32) | ((frame[28] as u64) << 24)
        | ((frame[29] as u64) << 16) | ((frame[30] as u64) << 8) | (frame[31] as u64);
    let session_id = copy_range(frame, 8, 24);
    let format_signal = copy_range(frame, 32, 34);
    let aux_data = copy_range(frame, 34, 48);
    let chunk = copy_range(frame, 48, frame.len());
    DecodedFrame {
        src_port,
        dst_port,
        total_len,
        session_id,
        seq_field,
        format_signal,
        aux_data,
        chunk,
    }
}

/// A fresh copy of the bytes of `v` in the index range `[from, to)`.
pub fn copy_range(v: &Vec<u8>, from: usize, to: usize) -> (out: Vec<u8>)
    requires
        from <= to <= v@.len(),
    ensures
        out@ == v@.subrange(from as int, to as int),
{
    let mut out: Vec<u8> = Vec::new();
    let mut i: usize = from;
    while i < to
        invariant
            from <= i <= to <= v@.len(),
            out@ == v@.subrange(from as int, i as int),
        decreases to - i,
    {
        out.push(v[i]);
        proof {
            assert(out@ =~= v@.subrange(from as int, (i + 1) as int));
        }
        i = i + 1;
    }
    out
}

/// Round trip through the wire image: a built frame is exactly
/// `FIXED_FRAME_LEN + chunk.len()` bytes long, and the byte ranges that
/// `decode_frame` reads give back exactly the fields that went in, with the
/// length field holding the frame's own total length.
pub proof fn lemma_frame_round_trip(
    src_port: u16,
    dst_port: u16,
    session_id: Seq<u8>,
    seq_num: u64,
    format_signal: Seq<u8>,
    aux_data: Seq<u8>,
    chunk: Seq<u8>,
)
    requires
        session_id.len() == SESSION_ID_LEN,
        format_signal.len() == FORMAT_SIGNAL_LEN,
        aux_data.len() == AUX_DATA_LEN,
        chunk.len() <= crate::CHUNK_SIZE,
    ensures
        ({
            let f = frame_bytes(
                src_port,
                dst_port,
                session_id,
                be64(seq_num),
                format_signal,
                aux_data,
                chunk,
            );
            &&& f.len() == FIXED_FRAME_LEN + chunk.len()
            &&& be16_val(f.subrange(0, 2)) == src_port
            &&& be16_val(f.subrange(2, 4)) == dst_port
            &&& be16_val(f.subrange(4, 6)) == f.len()
            &&& f.subrange(8, 24) == session_id
            &&& be64_val(f.subrange(24, 32)) == seq_num
            &&& f.subrange(32, 34) == format_signal
            &&& f.subrange(34, 48) == aux_data
            &&& f.subrange(48, f.len() as int) == chunk
        }),
{
    let total: u16 = (48 + chunk.len()) as u16;
    let f = frame_bytes(src_port, dst_port, session_id, be64(seq_num), format_signal, aux_data, chunk);
    assert(f.len() == 48 + chunk.len());
    assert(f.subrange(0, 2) =~= be16(src_port));
    assert(f.subrange(2, 4) =~= be16(dst_port));
    assert(f.subrange(4, 6) =~= be16(total));
    assert(f.subrange(8, 24) =~= session_id);
    assert(f.subrange(24, 32) =~= be64(seq_num));
    assert(f.subrange(32, 34) =~= format_signal);
    assert(f.subrange(34, 48) =~= aux_data);
    assert(f.subrange(48, f.len() as int) =~= chunk);
    lemma_be16_round_trip(src_port);
    lemma_be16_round_trip(dst_port);
    lemma_be16_round_trip(total);
    lemma_be64_round_trip(seq_num);
}

} // verus!
