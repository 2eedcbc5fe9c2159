use taskwire::frame::decode_frame;
use taskwire::transfer::{ack_message, Phase, SessionConfig, Status, Transfer};

fn test_config() -> SessionConfig {
    SessionConfig {
        src_addr: [127, 0, 0, 1],
        src_port: 1234,
        dst_addr: [127, 0, 0, 1],
        dst_port: 5678,
        session_id: vec![0u8; 16],
        format_signal: vec![0u8, 3u8],
        aux_data: vec![5u8; 14],
    }
}

#[test]
fn chunk_counts_follow_ceiling() {
    for (len, expected) in [
        (0usize, 0u32),
        (1, 1),
        (1023, 1),
        (1024, 1),
        (1025, 2),
        (2048, 2),
        (2500, 3),
        (5000, 5),
    ] {
        let t = Transfer::new(test_config(), vec![0u8; len]);
        assert_eq!(t.num_chunks(), expected);
    }
}

#[test]
fn payload_2500_sends_three_chunks_then_terminal() {
    let payload: Vec<u8> = (0..2500u32).map(|i| (i % 251) as u8).collect();
    let mut t = Transfer::new(test_config(), payload.clone());
    assert_eq!(t.phase, Phase::Opening);
    t.on_channel_opened();
    assert_eq!(t.num_chunks(), 3);
    let mut seen_lens = Vec::new();
    let mut seen_seqs = Vec::new();
    let mut sent_bytes = Vec::new();
    while matches!(t.phase, Phase::Sending(_)) {
        let frame = t.next_frame();
        let d = decode_frame(&frame);
        seen_lens.push(d.chunk.len());
        seen_seqs.push(d.seq_field);
        sent_bytes.extend_from_slice(&d.chunk);
        let ev = t.on_chunk_sent();
        assert!(matches!(ev, Status::ChunkSent(_)));
    }
    assert_eq!(seen_lens, vec![1024, 1024, 452]);
    assert_eq!(seen_seqs, vec![0, 1, 2]);
    assert_eq!(sent_bytes, payload);
    assert_eq!(t.phase, Phase::Terminal);
    let terminal = t.next_frame();
    let d = decode_frame(&terminal);
    assert_eq!(d.seq_field, 0xFFFF_FFFF_FFFF_FFFF);
    assert!(d.chunk.is_empty());
    let ev = t.on_terminal_sent(true);
    assert!(matches!(ev, Status::TransferComplete));
    assert_eq!(t.phase, Phase::Complete);
    assert!(t.done());
}

#[test]
fn empty_payload_sends_only_terminal_frame() {
    let mut t = Transfer::new(test_config(), Vec::new());
    t.on_channel_opened();
    // no data chunk is ever pending
    assert_eq!(t.phase, Phase::Terminal);
    assert_eq!(t.num_chunks(), 0);
    let terminal = t.next_frame();
    let d = decode_frame(&terminal);
    assert_eq!(d.seq_field, u64::MAX);
    assert!(d.chunk.is_empty());
    let ev = t.on_terminal_sent(true);
    assert!(matches!(ev, Status::TransferComplete));
    assert!(t.done());
}

#[test]
fn completion_is_announced_even_if_terminal_send_failed() {
    let mut t = Transfer::new(test_config(), Vec::new());
    t.on_channel_opened();
    let _ = t.next_frame();
    let ev = t.on_terminal_sent(false);
    assert!(matches!(ev, Status::TransferComplete));
    assert_eq!(t.phase, Phase::Complete);
}

#[test]
fn channel_open_failure_emits_one_event_and_stops() {
    let mut t = Transfer::new(test_config(), vec![1u8; 100]);
    let ev = t.on_channel_open_failed(String::from("insufficient privilege"));
    match &ev {
        Status::ChannelOpenFailed(cause) => assert_eq!(cause, "insufficient privilege"),
        other => panic!("unexpected event {:?}", other),
    }
    assert_eq!(t.phase, Phase::OpenFailed);
    assert!(t.done());
}

#[test]
fn send_failure_on_chunk_two_aborts_the_rest() {
    let mut t = Transfer::new(test_config(), vec![7u8; 5000]);
    t.on_channel_opened();
    assert_eq!(t.num_chunks(), 5);
    let mut events = Vec::new();
    for step in 0..3 {
        let _frame = t.next_frame();
        if step < 2 {
            events.push(t.on_chunk_sent());
        } else {
            events.push(t.on_chunk_send_failed(String::from("host unreachable")));
        }
    }
    assert_eq!(events.len(), 3);
    assert!(matches!(events[0], Status::ChunkSent(0)));
    assert!(matches!(events[1], Status::ChunkSent(1)));
    assert!(matches!(events[2], Status::SendFailed(2, _)));
    // the transfer is over: no chunk 3 or 4, no completion event
    assert_eq!(t.phase, Phase::Aborted(2));
    assert!(t.done());
}

#[test]
fn chunk_at_slices_the_payload() {
    let payload: Vec<u8> = (0..3000u32).map(|i| (i % 256) as u8).collect();
    let t = Transfer::new(test_config(), payload.clone());
    assert_eq!(t.chunk_at(0), payload[0..1024].to_vec());
    assert_eq!(t.chunk_at(1), payload[1024..2048].to_vec());
    assert_eq!(t.chunk_at(2), payload[2048..3000].to_vec());
}

#[test]
fn status_messages_read_as_the_stream_strings() {
    assert_eq!(Status::ChunkSent(0).message(), "Sent chunk 0");
    assert_eq!(Status::ChunkSent(17).message(), "Sent chunk 17");
    assert_eq!(
        Status::SendFailed(2, String::from("host unreachable")).message(),
        "Failed to send chunk 2: host unreachable"
    );
    assert_eq!(Status::TransferComplete.message(), "All chunks sent");
    assert_eq!(
        Status::ChannelOpenFailed(String::from("no permission")).message(),
        "Failed to open transport channel: no permission"
    );
}

#[test]
fn ack_message_names_the_text() {
    assert_eq!(ack_message("hello"), "Started sending text: hello");
    assert_eq!(ack_message(""), "Started sending text: ");
}
