use homeserver_core::state_compressor::{
    compress_state, compress_state_event, decompress_state, parse_compressed_state_event,
    StateDiff,
};

#[test]
fn entries_pack_big_endian() {
    let c = compress_state_event(0x0102030405060708, 0x1112131415161718);
    assert_eq!(
        c,
        [1, 2, 3, 4, 5, 6, 7, 8, 0x11, 0x12, 0x13, 0x14, 0x15, 0x16, 0x17, 0x18]
    );
    assert_eq!(parse_compressed_state_event(c), (0x0102030405060708, 0x1112131415161718));
    let m = compress_state_event(u64::MAX, 0);
    assert_eq!(parse_compressed_state_event(m), (u64::MAX, 0));
}

fn sorted(mut v: Vec<(u64, u64)>) -> Vec<(u64, u64)> {
    v.sort();
    v.dedup();
    v
}

#[test]
fn snapshot_delta_round_trip() {
    let parent = vec![(1, 10), (2, 20), (3, 30)];
    let full = vec![(1, 10), (3, 31), (4, 40)];
    let diff = compress_state(&parent, &full);
    assert_eq!(sorted(diff.added.clone()), vec![(3, 31), (4, 40)]);
    assert_eq!(sorted(diff.removed.clone()), vec![(2, 20), (3, 30)]);
    let back = decompress_state(&parent, &diff);
    assert_eq!(sorted(back.clone()), sorted(full.clone()));
    let again = compress_state(&parent, &back);
    assert_eq!(sorted(again.added), sorted(diff.added));
    assert_eq!(sorted(again.removed), sorted(diff.removed));
}

#[test]
fn empty_delta_keeps_parent() {
    let parent = vec![(1, 10)];
    let diff = StateDiff { added: vec![], removed: vec![] };
    assert_eq!(decompress_state(&parent, &diff), parent);
    let same = compress_state(&parent, &parent);
    assert!(same.added.is_empty() && same.removed.is_empty());
}
