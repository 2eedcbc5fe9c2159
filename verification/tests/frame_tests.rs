use taskwire::frame::{build_frame, decode_frame, u64_to_be, copy_range, FIXED_FRAME_LEN};

fn sample_fields() -> (Vec<u8>, Vec<u8>, Vec<u8>) {
    let session_id = vec![0u8; 16];
    let format_signal = vec![0u8, 3u8];
    let aux_data = vec![5u8; 14];
    (session_id, format_signal, aux_data)
}

#[test]
fn u64_big_endian_bytes() {
    assert_eq!(u64_to_be(0x0102030405060708), vec![1, 2, 3, 4, 5, 6, 7, 8]);
    assert_eq!(u64_to_be(0), vec![0u8; 8]);
    assert_eq!(u64_to_be(u64::MAX), vec![0xFFu8; 8]);
    assert_eq!(u64_to_be(2), vec![0, 0, 0, 0, 0, 0, 0, 2]);
}

#[test]
fn copy_range_copies_exactly() {
    let v = vec![10u8, 11, 12, 13, 14];
    assert_eq!(copy_range(&v, 1, 4), vec![11, 12, 13]);
    assert_eq!(copy_range(&v, 0, 0), Vec::<u8>::new());
    assert_eq!(copy_range(&v, 0, 5), v);
}

#[test]
fn frame_layout_and_length() {
    let (session_id, format_signal, aux_data) = sample_fields();
    let chunk = vec![9u8, 8, 7];
    let seq_field = u64_to_be(0);
    let mut buffer = vec![0u8; FIXED_FRAME_LEN + chunk.len()];
    let total = build_frame(
        &mut buffer,
        1234,
        5678,
        &session_id,
        &seq_field,
        &format_signal,
        &aux_data,
        &chunk,
    );
    assert_eq!(total, 51);
    assert_eq!(buffer.len(), FIXED_FRAME_LEN + 3);
    // UDP header: ports, total length, zero checksum, all big endian
    assert_eq!(&buffer[0..2], &[0x04, 0xD2]);
    assert_eq!(&buffer[2..4], &[0x16, 0x2E]);
    assert_eq!(&buffer[4..6], &[0x00, 51]);
    assert_eq!(&buffer[6..8], &[0x00, 0x00]);
    // fields in order, no padding
    assert_eq!(&buffer[8..24], session_id.as_slice());
    assert_eq!(&buffer[24..32], &[0u8; 8]);
    assert_eq!(&buffer[32..34], format_signal.as_slice());
    assert_eq!(&buffer[34..48], aux_data.as_slice());
    assert_eq!(&buffer[48..], chunk.as_slice());
}

#[test]
fn frame_round_trip_recovers_fields() {
    let session_id: Vec<u8> = (0u8..16).collect();
    let format_signal = vec![7u8, 1u8];
    let aux_data: Vec<u8> = (20u8..34).collect();
    let chunk: Vec<u8> = (0u8..255).collect();
    let seq_field = u64_to_be(41);
    let mut buffer = vec![0u8; FIXED_FRAME_LEN + chunk.len()];
    build_frame(
        &mut buffer,
        40000,
        65535,
        &session_id,
        &seq_field,
        &format_signal,
        &aux_data,
        &chunk,
    );
    let d = decode_frame(&buffer);
    assert_eq!(d.src_port, 40000);
    assert_eq!(d.dst_port, 65535);
    assert_eq!(d.total_len as usize, buffer.len());
    assert_eq!(d.session_id, session_id);
    assert_eq!(d.seq_field, 41);
    assert_eq!(d.format_signal, format_signal);
    assert_eq!(d.aux_data, aux_data);
    assert_eq!(d.chunk, chunk);
}

#[test]
fn terminal_frame_sentinel() {
    let (session_id, format_signal, aux_data) = sample_fields();
    let empty: Vec<u8> = Vec::new();
    let seq_field = u64_to_be(taskwire::END_SIG);
    let mut buffer = vec![0u8; FIXED_FRAME_LEN];
    let total = build_frame(
        &mut buffer,
        1234,
        5678,
        &session_id,
        &seq_field,
        &format_signal,
        &aux_data,
        &empty,
    );
    assert_eq!(total, FIXED_FRAME_LEN);
    let d = decode_frame(&buffer);
    assert_eq!(d.seq_field, u64::MAX);
    assert!(d.chunk.is_empty());
    // the sentinel is distinguishable from every 32-bit sequence number
    assert!(u64::from(u32::MAX) < taskwire::END_SIG);
}
