use hazel::models::markers::Id;
use hazel::reassembly::{
    Chunk, DecodingWorker, OwnedEncodedVideoFrameChunk, PendingFrame, ProcessError, StreamPacketHeader,
    VideoStreamingClientState,
};

fn header(seq: u64, shard: u16, data_shards: u16, recovery_shards: u16, data_size: u32) -> StreamPacketHeader {
    StreamPacketHeader { seq, shard, data_shards, recovery_shards, shard_size: 4, data_size }
}

fn chunk(h: StreamPacketHeader, data: &[u8]) -> OwnedEncodedVideoFrameChunk {
    OwnedEncodedVideoFrameChunk { header: h, data: data.to_vec() }
}

#[test]
fn header_counts() {
    let h = header(0, 2, 2, 1, 8);
    assert_eq!(h.total_chunks(), 3);
    assert!(h.is_fec());
    assert!(!header(0, 1, 2, 1, 8).is_fec());
}

#[test]
fn chunk_slot_set_and_reset() {
    let mut c = Chunk::new();
    assert!(!c.processed);
    c.set(&[1, 2]);
    assert!(c.processed);
    assert_eq!(c.data, vec![1, 2]);
    c.set(&[3]);
    assert_eq!(c.data, vec![3]);
    c.reset();
    assert!(!c.processed);
    assert!(c.data.is_empty());
}

#[test]
fn pending_frame_assembles_payload_in_order() {
    let mut f = PendingFrame::new();
    assert!(!f.in_construction());
    let second = chunk(header(3, 1, 2, 1, 6), &[5, 6, 7, 8]);
    assert!(f.can_merge(&second.header));
    f.merge_chunk(&second);
    assert!(f.in_construction());
    assert!(!f.can_merge(&second.header));
    assert_eq!(f.process(), Ok(false));
    f.merge_chunk(&chunk(header(3, 0, 2, 1, 6), &[1, 2, 3, 4]));
    assert_eq!(f.process(), Ok(true));
    assert_eq!(f.data(), &vec![1, 2, 3, 4, 5, 6]);
    f.reset();
    assert!(!f.in_construction());
    assert!(f.can_merge(&second.header));
}

#[test]
fn chunk_outside_frame_cannot_merge() {
    let f = PendingFrame::new();
    assert!(!f.can_merge(&header(0, 3, 2, 1, 8)));
}

#[test]
fn client_returns_complete_frame_once() {
    let mut c = VideoStreamingClientState::new();
    assert_eq!(c.next_seq(), 0);
    let first = chunk(header(0, 0, 2, 1, 7), &[1, 2, 3, 4]);
    assert!(c.can_take(&first.header));
    assert_eq!(c.process_chunk(&first), Ok(None));
    assert!(!c.can_take(&first.header));
    let second = chunk(header(0, 1, 2, 1, 7), &[5, 6, 7, 8]);
    assert_eq!(c.process_chunk(&second), Ok(Some(vec![1, 2, 3, 4, 5, 6, 7])));
    assert_eq!(c.next_seq(), 1);
    let late = chunk(header(0, 2, 2, 1, 7), &[0, 0, 0, 0]);
    assert!(c.can_take(&late.header));
    assert_eq!(c.process_chunk(&late), Ok(None));
    assert_eq!(c.next_seq(), 1);
}

#[test]
fn older_frame_dropped_once_newer_completes() {
    let mut c = VideoStreamingClientState::new();
    assert_eq!(c.process_chunk(&chunk(header(1, 0, 2, 0, 8), &[1, 1, 1, 1])), Ok(None));
    assert_eq!(c.process_chunk(&chunk(header(2, 0, 1, 0, 2), &[9, 9, 9, 9])), Ok(Some(vec![9, 9])));
    assert_eq!(c.next_seq(), 3);
    assert_eq!(c.process_chunk(&chunk(header(1, 1, 2, 0, 8), &[2, 2, 2, 2])), Ok(None));
}

#[test]
fn recovery_with_invalid_shard_index_fails() {
    let mut c = VideoStreamingClientState::new();
    assert_eq!(c.process_chunk(&chunk(header(0, 0, 2, 2, 8), &[1, 2, 3, 4])), Ok(None));
    assert_eq!(
        c.process_chunk(&chunk(header(0, 2, 2, 2, 8), &[0, 0, 0, 0])),
        Err(ProcessError::Recovery)
    );
}

#[test]
fn missing_payload_restored_from_recovery_chunk() {
    let original = [9u8, 8, 7, 6];
    let recovery = reed_solomon_simd::encode(1, 2, [original]).unwrap();
    let mut c = VideoStreamingClientState::new();
    let got = c.process_chunk(&chunk(header(5, 1, 1, 2, 3), &recovery[1]));
    assert_eq!(got, Ok(Some(vec![9, 8, 7])));
    assert_eq!(c.next_seq(), 6);
}

#[test]
fn decoding_worker_routes_chunks() {
    let mut w = DecodingWorker::new();
    assert!(w.add_client(Id::new(4)));
    assert!(!w.add_client(Id::new(4)));
    let only = chunk(header(0, 0, 1, 0, 4), &[4, 3, 2, 1]);
    assert!(w.can_process(Id::new(4), true, &only.header));
    assert_eq!(w.process_frame_chunk(Id::new(4), false, &only), Ok(None));
    assert_eq!(w.process_frame_chunk(Id::new(5), true, &only), Ok(None));
    assert_eq!(w.process_frame_chunk(Id::new(4), true, &only), Ok(Some(vec![4, 3, 2, 1])));
    assert_eq!(w.process_frame_chunk(Id::new(4), true, &only), Ok(None));
}

#[test]
fn decoding_worker_refuses_duplicate_chunk() {
    let mut w = DecodingWorker::new();
    w.add_client(Id::new(1));
    let part = chunk(header(0, 0, 2, 0, 8), &[1, 1, 1, 1]);
    assert_eq!(w.process_frame_chunk(Id::new(1), true, &part), Ok(None));
    assert!(!w.can_process(Id::new(1), true, &part.header));
    assert!(w.can_process(Id::new(1), false, &part.header));
    assert!(w.can_process(Id::new(2), true, &part.header));
}
