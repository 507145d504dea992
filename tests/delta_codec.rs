use eacopy::{DeltaDescriptor, DeltaEncoder, DeltaOp, checksum, decode, decode_op, encode, Error};

fn round_trip(reference: &[u8], target: &[u8], block: usize) -> Vec<DeltaOp> {
    let d = encode(reference, target, block);
    let back = decode(reference, &d).unwrap();
    assert_eq!(back, target.to_vec());
    d.ops
}

#[test]
fn identical_files_give_copies_only() {
    let data: Vec<u8> = (0..1000u32).map(|i| (i * 7 % 251) as u8).collect();
    let ops = round_trip(&data, &data, 64);
    assert!(!ops.is_empty());
    assert!(ops.iter().all(|o| matches!(o, DeltaOp::Copy { .. })));
}

#[test]
fn identical_files_with_partial_last_block() {
    let data = b"abcdefghij".to_vec();
    let ops = round_trip(&data, &data, 4);
    assert_eq!(
        ops,
        vec![
            DeltaOp::Copy { offset: 0, length: 4 },
            DeltaOp::Copy { offset: 4, length: 4 },
            DeltaOp::Copy { offset: 8, length: 2 },
        ]
    );
}

#[test]
fn empty_reference_gives_inserts_only() {
    let target = b"hello delta world".to_vec();
    let ops = round_trip(&[], &target, 4);
    assert_eq!(ops, vec![DeltaOp::Insert(target.clone())]);
}

#[test]
fn disjoint_content_gives_inserts_only() {
    let reference = vec![0u8; 64];
    let target: Vec<u8> = (1..=100u8).collect();
    let ops = round_trip(&reference, &target, 8);
    assert!(ops.iter().all(|o| matches!(o, DeltaOp::Insert(_))));
}

#[test]
fn shifted_content_reuses_blocks() {
    let reference: Vec<u8> = (0..=255u8).collect();
    let mut target = b"XYZ".to_vec();
    target.extend_from_slice(&reference[16..80]);
    target.extend_from_slice(b"tail");
    let ops = round_trip(&reference, &target, 16);
    assert_eq!(ops[0], DeltaOp::Insert(b"XYZ".to_vec()));
    assert_eq!(ops[1], DeltaOp::Copy { offset: 16, length: 16 });
    assert!(ops.iter().filter(|o| matches!(o, DeltaOp::Copy { .. })).count() == 4);
    for op in &ops {
        if let DeltaOp::Copy { offset, length } = op {
            assert!(*length == 16 && offset % 16 == 0);
        }
    }
}

#[test]
fn empty_target_gives_no_operations() {
    let ops = round_trip(b"reference", &[], 4);
    assert!(ops.is_empty());
}

#[test]
fn decode_rejects_another_reference() {
    let d = encode(b"first reference", b"first target", 4);
    match decode(b"second reference", &d) {
        Err(Error::DeltaCopy(_)) => {}
        other => panic!("unexpected {:?}", other),
    }
}

#[test]
fn decode_rejects_copy_past_reference() {
    let mut d = encode(b"abcd", b"abcd", 4);
    d.ops = vec![DeltaOp::Copy { offset: 2, length: 3 }];
    assert!(matches!(decode(b"abcd", &d), Err(Error::DeltaCopy(_))));
}

#[test]
fn checksum_matches_adler32() {
    assert_eq!(checksum(b"Wikipedia"), 0x11E6_0398);
    assert_eq!(checksum(b""), 1);
}

#[test]
fn streamed_pieces_rebuild_the_target() {
    let reference: Vec<u8> = (0..5000u32).map(|i| (i % 97) as u8).collect();
    let mut target = reference[100..2100].to_vec();
    target.extend_from_slice(b"fresh bytes in the middle");
    target.extend_from_slice(&reference[3000..5000]);
    let mut enc = DeltaEncoder::new(&reference, 64);
    let mut rebuilt = Vec::new();
    let mut all_ops = Vec::new();
    for piece in target.chunks(333) {
        enc.push(piece);
        for op in enc.take_ops() {
            rebuilt.extend(decode_op(&reference, &op).unwrap());
            all_ops.push(op);
        }
    }
    let last = enc.finish();
    for op in &last.ops {
        rebuilt.extend(decode_op(&reference, op).unwrap());
    }
    all_ops.extend(last.ops.clone());
    assert_eq!(rebuilt, target);
    let whole = DeltaDescriptor { reference_checksum: last.reference_checksum, block_size: 64, ops: all_ops };
    assert_eq!(decode(&reference, &whole).unwrap(), target);
    assert!(whole.ops.iter().filter(|o| matches!(o, DeltaOp::Copy { .. })).count() >= 40);
}

#[test]
fn streamed_identical_target_copies_only() {
    let data: Vec<u8> = (0..777u32).map(|i| (i * 31 % 256) as u8).collect();
    let mut enc = DeltaEncoder::new(&data, 50);
    let mut ops = Vec::new();
    for piece in data.chunks(7) {
        enc.push(piece);
        ops.extend(enc.take_ops());
    }
    ops.extend(enc.finish().ops);
    assert!(ops.iter().all(|o| matches!(o, DeltaOp::Copy { .. })));
    assert_eq!(ops.last(), Some(&DeltaOp::Copy { offset: 750, length: 27 }));
}

#[test]
fn long_literals_are_split() {
    let target = vec![7u8; 70_000];
    let ops = encode(&[], &target, 16).ops;
    assert_eq!(ops.len(), 2);
    assert_eq!(ops[0], DeltaOp::Insert(vec![7u8; 65_536]));
    assert!(matches!(decode_op(b"ab", &DeltaOp::Copy { offset: 1, length: 2 }), Err(Error::DeltaCopy(_))));
    assert_eq!(decode_op(b"abc", &DeltaOp::Copy { offset: 1, length: 2 }).unwrap(), b"bc".to_vec());
}
