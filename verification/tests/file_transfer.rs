use ipchat::file_transfer::{FileChunk, FileReceiver, FileTransfer, CHUNK_SIZE};
use ipchat::webrtc_error::IPChatWebRTCError;
use ipchat::webrtc_types::FileMetadata;

fn meta(name: &str, size: u64) -> FileMetadata {
    FileMetadata::new(name.to_string(), size, "application/octet-stream".to_string(), 0f64.to_bits())
}

fn sample_data() -> Vec<Vec<u8>> {
    let a: Vec<u8> = (0..(CHUNK_SIZE * 2 + 100)).map(|i| (i % 251) as u8).collect();
    let b: Vec<u8> = vec![7, 8, 9];
    vec![a, b]
}

fn drain(t: &mut FileTransfer) -> Vec<FileChunk> {
    let mut out = Vec::new();
    while let Some(c) = t.next_chunk() {
        out.push(c);
    }
    out
}

#[test]
fn transfer_round_trip_in_order() {
    let data = sample_data();
    let files = vec![meta("a.bin", data[0].len() as u64), meta("b.txt", 3)];
    let mut t = FileTransfer::new("t1".to_string(), files);
    t.prepare_file_data(data.clone()).unwrap();
    let chunks = drain(&mut t);
    assert_eq!(chunks.len(), 4);
    assert_eq!(chunks[0].data.len(), CHUNK_SIZE);
    assert_eq!(chunks[2].data.len(), 100);
    assert_eq!((chunks[3].file_index, chunks[3].chunk_index), (1, 0));
    assert!(t.is_complete());
    assert_eq!(t.progress().bytes_transferred(), (CHUNK_SIZE * 2 + 103) as u64);

    let mut r = FileReceiver::new();
    r.start_transfer("t1".to_string(), vec![meta("a.bin", data[0].len() as u64), meta("b.txt", 3)]);
    for c in chunks {
        r.receive_chunk(c).unwrap();
    }
    let out = r.assemble_files("t1").unwrap();
    assert_eq!(out, data);
    assert!(r.get_progress("t1").is_none());
}

#[test]
fn transfer_round_trip_any_order() {
    let data = sample_data();
    let mut t = FileTransfer::new("t2".to_string(), vec![meta("a", 0), meta("b", 0)]);
    t.prepare_file_data(data.clone()).unwrap();
    let mut chunks = drain(&mut t);
    chunks.reverse();
    let mut r = FileReceiver::new();
    r.start_transfer("t2".to_string(), vec![meta("a", 0), meta("b", 0)]);
    for c in chunks {
        r.receive_chunk(c).unwrap();
    }
    assert_eq!(r.assemble_files("t2").unwrap(), data);
}

#[test]
fn empty_file_is_reported_missing() {
    let mut r = FileReceiver::new();
    r.start_transfer("t3".to_string(), vec![meta("a", 1), meta("b", 0)]);
    r.receive_chunk(FileChunk { transfer_id: "t3".to_string(), file_index: 0, chunk_index: 0, data: vec![1] }).unwrap();
    match r.assemble_files("t3") {
        Err(e) => assert_eq!(e.message(), "File transfer error: Missing chunks for file 1"),
        Ok(_) => panic!("expected an error"),
    }
    // the transfer is gone even after the error
    match r.assemble_files("t3") {
        Err(IPChatWebRTCError::FileTransferError(m)) => assert_eq!(m, "Transfer not found"),
        _ => panic!("expected not found"),
    }
}

#[test]
fn unknown_transfer_is_refused() {
    let mut r = FileReceiver::new();
    let res = r.receive_chunk(FileChunk { transfer_id: "nope".to_string(), file_index: 0, chunk_index: 0, data: vec![] });
    match res {
        Err(IPChatWebRTCError::FileTransferError(m)) => assert_eq!(m, "Transfer not found"),
        _ => panic!("expected not found"),
    }
}

#[test]
fn progress_counts_received_bytes() {
    let mut r = FileReceiver::new();
    r.start_transfer("p".to_string(), vec![meta("a", 10), meta("b", 30)]);
    let p = r.receive_chunk(FileChunk { transfer_id: "p".to_string(), file_index: 1, chunk_index: 0, data: vec![0; 12] })
        .unwrap()
        .unwrap();
    assert_eq!(p.transfer_id(), "p");
    assert_eq!(p.bytes_transferred(), 12);
    assert_eq!(p.total_bytes(), 40);
    // a chunk received twice replaces the stored bytes but counts twice
    r.receive_chunk(FileChunk { transfer_id: "p".to_string(), file_index: 1, chunk_index: 0, data: vec![1; 12] }).unwrap();
    let g = r.get_progress("p").unwrap();
    assert_eq!(g.bytes_transferred(), 24);
}

#[test]
fn data_count_must_match_metadata() {
    let mut t = FileTransfer::new("x".to_string(), vec![meta("a", 1)]);
    match t.prepare_file_data(vec![]) {
        Err(e) => assert_eq!(e.message(), "File transfer error: File data count doesn't match metadata count"),
        Ok(_) => panic!("expected an error"),
    }
    assert!(t.next_chunk().is_none());
    assert_eq!(t.file_count(), 1);
    assert_eq!(t.id(), "x");
    assert!(!t.is_complete());
}

#[test]
fn transfer_with_no_bytes_is_complete() {
    let t = FileTransfer::new("z".to_string(), vec![]);
    assert!(t.is_complete());
    assert_eq!(t.progress().total_bytes(), 0);
}

#[test]
fn chunk_stream_shape() {
    let big: Vec<u8> = (0..40000u32).map(|i| (i % 7) as u8).collect();
    let data = vec![big.clone(), vec![], vec![42]];
    let files = vec![meta("big", 40000), meta("empty", 0), meta("one", 1)];
    let mut t = FileTransfer::new("s".to_string(), files);
    t.prepare_file_data(data).unwrap();
    let chunks = drain(&mut t);
    let shape: Vec<(usize, usize, usize)> = chunks.iter().map(|c| (c.file_index, c.chunk_index, c.data.len())).collect();
    assert_eq!(shape, vec![(0, 0, 16384), (0, 1, 16384), (0, 2, 7232), (2, 0, 1)]);
    let joined: Vec<u8> = chunks.iter().filter(|c| c.file_index == 0).flat_map(|c| c.data.clone()).collect();
    assert_eq!(joined, big);
    assert!(chunks.iter().all(|c| c.transfer_id == "s"));
    assert!(t.next_chunk().is_none());
    assert!(t.next_chunk().is_none());
    assert_eq!(t.progress().bytes_transferred, 40001);
}
