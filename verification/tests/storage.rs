use queue_aware_smdp::arch::storage::{
    CHUNK, LeftFile, StorageStream, TailScan, checksum_line, checksum_name, compressed_name,
    finished_name, left_file, manifest_streams, rotation_due, schema_version, segment_name,
    utc_hour_key,
};

fn truncated(bytes: &[u8]) -> Vec<u8> {
    let mut scan = TailScan::new(bytes.len() as u64);
    while let Some((start, count)) = scan.next_chunk() {
        let start = start as usize;
        if let Some(length) = scan.examine(&bytes[start..start + count]) {
            return bytes[..length as usize].to_vec();
        }
    }
    Vec::new()
}

#[test]
fn recovery_truncates_an_incomplete_json_line() {
    let name = "public_market.part-old.jsonl.partial";
    assert_eq!(left_file(name), LeftFile::Abandoned);
    let kept = truncated(b"{\"complete\":true}\n{\"partial\":");
    assert_eq!(kept, b"{\"complete\":true}\n");
    let ready = finished_name(name).unwrap();
    assert_eq!(compressed_name(&ready).unwrap(), "public_market.part-old.jsonl.zst");
    let packed = zstd::stream::encode_all(&kept[..], 1).unwrap();
    let decoded = zstd::stream::decode_all(&packed[..]).unwrap();
    assert_eq!(decoded, b"{\"complete\":true}\n");
}

#[test]
fn whole_files_and_broken_files_are_told_apart() {
    assert_eq!(truncated(b""), b"");
    assert_eq!(truncated(b"no line"), b"");
    assert_eq!(truncated(b"a\nb\n"), b"a\nb\n");
    let mut long = b"first\n".to_vec();
    long.extend(vec![b'x'; 3 * CHUNK as usize + 5]);
    assert_eq!(truncated(&long), b"first\n");
    let mut edge = vec![b'x'; CHUNK as usize - 1];
    edge.push(b'\n');
    edge.extend(vec![b'y'; CHUNK as usize]);
    assert_eq!(truncated(&edge).len(), CHUNK as usize);
}

#[test]
fn names_follow_the_contract() {
    let hour = utc_hour_key(2026, 8, 27, 9);
    assert_eq!(hour, "20260827T09");
    let active = segment_name(StorageStream::AccountSnapshots, &hour);
    assert_eq!(active, "account_snapshots.part-20260827T09.jsonl.partial");
    let ready = finished_name(&active).unwrap();
    assert_eq!(ready, "account_snapshots.part-20260827T09.jsonl.ready");
    let packed = compressed_name(&ready).unwrap();
    assert_eq!(packed, "account_snapshots.part-20260827T09.jsonl.zst");
    assert_eq!(checksum_name(&packed), "account_snapshots.part-20260827T09.jsonl.zst.sha256");
    assert_eq!(checksum_line("ab", &packed), format!("ab  {packed}\n"));
    assert_eq!(finished_name(&packed), None);
    assert_eq!(compressed_name(&active), None);
    assert_eq!(left_file(&ready), LeftFile::Ready);
    assert_eq!(left_file(&packed), LeftFile::Other);
    assert_eq!(left_file("runs/.ready"), LeftFile::Other);
}

#[test]
fn files_rotate_with_the_hour() {
    let hours = vec!["20260827T09".to_string(), "20260827T09".to_string()];
    assert!(!rotation_due(&hours, "20260827T09"));
    assert!(rotation_due(&hours, "20260827T10"));
    assert!(!rotation_due(&vec![], "20260827T10"));
}

#[test]
fn every_stream_is_listed() {
    assert_eq!(
        manifest_streams(),
        ["public_market", "private_ws", "decisions", "actions", "account_snapshots", "system"]
    );
    assert_eq!(StorageStream::all().len(), 6);
    assert_eq!(schema_version(), 1);
}
