use polyphonic::blob::{BlobId, BlobKind, BlobMeta};
use polyphonic::flow::missing_bytes;
use polyphonic::work::{billed_kind_idx, reference_ops, Agent, Gang};

#[test]
fn reference_ops_number_only_the_requests_one_ledger_processes() {
    let a = BlobId::leaf(b"a");
    let b = BlobId::leaf(b"b");
    let c = BlobId::leaf(b"c");
    let requests = vec![
        (false, vec![a, b]),
        (true, vec![c]),
        (false, vec![]),
        (false, vec![b, c]),
    ];
    assert_eq!(
        reference_ops(&requests),
        vec![(a, 0), (b, 0), (b, 2), (c, 2)]
    );
}


#[test]
fn a_flow_still_has_to_materialise_only_what_is_not_resident() {
    let meta = |bytes: u64| BlobMeta {
        kind: BlobKind::Snapshot,
        bytes,
        parent: None,
        recompute_ns: 0,
    };
    let downstream = vec![
        (BlobId::leaf(b"x"), meta(100)),
        (BlobId::leaf(b"y"), meta(20)),
        (BlobId::leaf(b"z"), meta(3)),
    ];
    assert_eq!(missing_bytes(&downstream, &[false, true, false]), 103);
    assert_eq!(missing_bytes(&downstream, &[true, true, true]), 0);
    assert_eq!(missing_bytes(&[], &[]), 0);
}

#[test]
fn a_request_bills_its_chain_class_or_its_first_agents() {
    let blob = |kind: BlobKind| {
        (
            BlobId::leaf(b"k"),
            BlobMeta {
                kind,
                bytes: 1,
                parent: None,
                recompute_ns: 0,
            },
        )
    };
    let agent = Agent {
        chain: vec![blob(BlobKind::WeightShard)],
        requires: vec![],
        tokens: 0,
        tools: vec![],
    };
    let gang = Gang {
        agents: vec![agent],
    };
    assert_eq!(billed_kind_idx(&vec![blob(BlobKind::Snapshot)], Some(&gang)), 1);
    assert_eq!(billed_kind_idx(&vec![], Some(&gang)), 2);
    assert_eq!(billed_kind_idx(&vec![], Some(&Gang { agents: vec![] })), 0);
    assert_eq!(billed_kind_idx(&vec![blob(BlobKind::ServiceHeap)], None), 3);
    assert_eq!(billed_kind_idx(&vec![], None), 0);
}

#[test]
fn an_identity_abbreviates_to_its_first_four_bytes_in_hex() {
    let mut bytes = [0u8; 32];
    bytes[..5].copy_from_slice(&[0xde, 0xad, 0x0b, 0xe5, 0xff]);
    assert_eq!(BlobId(bytes).short_hex(), "dead0be5");
    assert_eq!(BlobId([0u8; 32]).short_hex(), "00000000");
}
