use polyphonic::blob::{root, BlobId, BlobKind};
use polyphonic::boundary::Boundary;
use polyphonic::machine::{
    decimal, decode_pool, needs_decode, policy_target, rendezvous, rendezvous_pick, retire,
    root_key, Control, Placement,
};
use polyphonic::oracle::Regime;
use polyphonic::plat::{qos_class, sysctl_value, Cluster};
use polyphonic::store::{Bytes, Spill, StoreStats};
use polyphonic::topo::{unit_in, ComputeUnit, UnitKind};

#[test]
fn control_labels_name_the_refresh_period() {
    assert_eq!(Control::Unified.label(), "unified (in-process)");
    assert_eq!(Control::Query.label(), "query (rpc per decision)");
    assert_eq!(Control::Gossip { period: 64 }.label(), "gossip (every 64)");
    assert_eq!(Control::Gossip { period: 0 }.label(), "gossip (every 0)");
    assert_eq!(decimal(u64::MAX), u64::MAX.to_string());
    assert_eq!(decimal(1_000_007), "1000007");
}

#[test]
fn labels_of_boundaries_and_regimes() {
    assert_eq!(Boundary::Grpc.label(), "gRPC unary RTT");
    assert_eq!(Boundary::Native.label(), "native call");
    assert_eq!(Boundary::ExtProc.label(), "ext_proc callout");
    assert_eq!(Regime::Recompute.label(), "recompute");
    for (i, r) in Regime::ALL.into_iter().enumerate() {
        assert_eq!(r.idx(), i);
    }
}

#[test]
fn root_key_reads_the_first_eight_bytes_little_endian() {
    assert_eq!(root_key(None), 0);
    let mut bytes = [0u8; 32];
    bytes[0] = 1;
    bytes[1] = 2;
    bytes[7] = 0x80;
    let id = BlobId(bytes);
    assert_eq!(root_key(Some(&id)), 0x8000_0000_0000_0201);
    assert_eq!(root_key(Some(&root())), 0);
}

#[test]
fn rendezvous_mixes_key_and_domain() {
    // splitmix64's finaliser of 0 is 0.
    assert_eq!(rendezvous(0, 0), 0);
    assert_ne!(rendezvous(1, 0), rendezvous(1, 1));
    let key = 0xDEAD_BEEF;
    let pick = rendezvous_pick(key, &[0, 1, 2, 3]).unwrap();
    for d in 0..4 {
        assert!(rendezvous(key, d) <= rendezvous(key, pick));
    }
    assert_eq!(rendezvous_pick(key, &[]), None);
    // Removing a domain other than the pick leaves the pick where it was.
    let rest: Vec<usize> = (0..4).filter(|&d| d != (pick + 1) % 4).collect();
    assert_eq!(rendezvous_pick(key, &rest), Some(pick));
}

#[test]
fn decode_pool_falls_back_to_every_active_domain() {
    assert_eq!(decode_pool(&[0, 2, 3], &[true, true, false, true]), vec![0, 3]);
    assert_eq!(decode_pool(&[2], &[true, true, false, true]), vec![2]);
    assert_eq!(decode_pool(&[], &[true]), Vec::<usize>::new());
}

#[test]
fn policy_targets() {
    let mut next = 0;
    assert_eq!(policy_target(Placement::Blind, &mut next, 9, 8, 5, &[4, 5, 6]), 4);
    assert_eq!(policy_target(Placement::Blind, &mut next, 9, 8, 5, &[4, 5, 6]), 5);
    assert_eq!(next, 2);
    assert_eq!(policy_target(Placement::Sticky, &mut next, 9, 8, 5, &[4]), 9);
    assert_eq!(policy_target(Placement::Aware, &mut next, 9, 8, 5, &[4]), 8);
    assert_eq!(policy_target(Placement::Scored, &mut next, 9, 8, 0, &[4]), 9);
    assert_eq!(next, 2);
}

#[test]
fn unit_in_finds_the_first_unit_homed_in_a_domain() {
    let u = |id: u8, home: u8| ComputeUnit {
        id,
        kind: UnitKind::Performance,
        cluster: 0,
        home,
    };
    let units = [u(0, 1), u(1, 2), u(2, 2)];
    assert_eq!(unit_in(&units, 2), 1);
    assert_eq!(unit_in(&units, 1), 0);
    assert_eq!(unit_in(&units, 7), 0);
}

#[test]
fn kernel_answers_are_read_by_width_and_clusters_map_to_qos_classes() {
    assert_eq!(sysctl_value(0x1_2345_6789, 8), Some(0x1_2345_6789));
    assert_eq!(sysctl_value(0x1_2345_6789, 4), Some(0x2345_6789));
    assert_eq!(sysctl_value(7, 2), None);
    assert_eq!(qos_class(Cluster::Performance), 0x21);
    assert_eq!(qos_class(Cluster::Efficiency), 0x09);
}

#[test]
fn buffers_are_padded_to_whole_blocks_and_faulted_per_block() {
    assert_eq!(Bytes::new(0).len(), 4096);
    assert_eq!(Bytes::new(1).len(), 4096);
    assert_eq!(Bytes::new(4096).len(), 4096);
    assert_eq!(Bytes::new(4097).len(), 8192);
    let mut b = Bytes::new(10_000);
    b.fault_in(7);
    let s = b.as_slice();
    assert_eq!(s.len(), 12_288);
    assert_eq!((s[0], s[4096], s[8192]), (7, 7, 7));
    assert_eq!((s[1], s[4095], s[12_287]), (0, 0, 0));
    b.as_mut_slice()[1] = 9;
    assert_eq!(b.as_slice()[1], 9);
}

#[test]
fn spill_slots_are_reused_by_length_before_the_file_grows() {
    let mut s = Spill::new(10_000);
    assert_eq!(s.allocate(4096), Some(0));
    assert_eq!(s.allocate(4096), Some(4096));
    // 8192 + 4096 > 10_000: nothing fresh, nothing freed.
    assert_eq!(s.allocate(4096), None);
    s.release(4096, 0);
    assert_eq!(s.allocate(8192), None);
    assert_eq!(s.allocate(4096), Some(0));
    assert_eq!(s.allocate(4096), None);
    let stats = StoreStats::default();
    assert_eq!(stats.dram_bytes + stats.spill_bytes + stats.reads, 0);
}

#[test]
fn retiring_a_domain_removes_it_unless_it_is_the_last() {
    let mut active = vec![0, 1, 2];
    assert!(retire(&mut active, 1));
    assert_eq!(active, vec![0, 2]);
    assert!(!retire(&mut active, 7));
    assert_eq!(active, vec![0, 2]);
    assert!(retire(&mut active, 0));
    assert_eq!(active, vec![2]);
    assert!(!retire(&mut active, 2));
    assert_eq!(active, vec![2]);
}

#[test]
fn decode_is_needed_for_tokens_or_accelerated_chains() {
    assert!(needs_decode(5, None));
    assert!(needs_decode(0, Some(BlobKind::KvBlock)));
    assert!(needs_decode(0, Some(BlobKind::WeightShard)));
    assert!(!needs_decode(0, Some(BlobKind::Snapshot)));
    assert!(!needs_decode(0, Some(BlobKind::ServiceHeap)));
    assert!(!needs_decode(0, None));
}

#[test]
fn removing_another_domain_keeps_a_keys_rendezvous_choice() {
    for key in [0u64, 1, 42, 0xdead_beef, u64::MAX] {
        let all = [0usize, 1, 2, 3, 4];
        let d = rendezvous_pick(key, &all).unwrap();
        for gone in all {
            if gone == d {
                continue;
            }
            let rest: Vec<usize> = all.iter().copied().filter(|&x| x != gone).collect();
            assert_eq!(rendezvous_pick(key, &rest), Some(d));
        }
    }
}

#[test]
fn buffers_start_on_a_block_boundary() {
    for len in [1usize, 100, 4096, 5000, 70_000] {
        let b = Bytes::new(len);
        assert_eq!(b.as_slice().as_ptr().align_offset(4096), 0);
        let mut c = Bytes::new(len);
        assert_eq!(c.as_mut_slice().as_ptr().align_offset(4096), 0);
    }
}

#[test]
fn store_counters_move_with_each_operation_and_refuse_to_wrap() {
    let mut s = StoreStats::default();
    assert!(s.faulted(8192, 5));
    assert_eq!((s.dram_bytes, s.fault_ns), (8192, 5));
    assert!(s.left_memory(8192));
    assert!(!s.left_memory(1));
    assert!(s.written(8192, 7));
    assert_eq!((s.spill_bytes, s.writes, s.write_ns), (8192, 1, 7));
    assert!(s.read_back(8192, 3, Some(8192)));
    assert_eq!((s.spill_bytes, s.reads, s.read_ns, s.dram_bytes), (0, 1, 3, 8192));
    assert!(!s.dropped(1));
    assert!(!s.faulted(u64::MAX, 0));
    assert_eq!(s.dram_bytes, 8192);
    assert!(Bytes::allocatable(10_000));
    assert!(!Bytes::allocatable(usize::MAX - 10));
    let mut sp = Spill::new(u64::MAX);
    assert!(sp.can_allocate(4096));
    assert_eq!(sp.allocate(4096), Some(0));
}
