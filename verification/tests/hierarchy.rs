use polyphonic::blob::BlobKind;
use polyphonic::cache::{accelerated, home_authority, tier_of, NodeMemory, Quota};
use polyphonic::own::{authority, Question};
use polyphonic::tier::Tier;

fn hierarchy(split: bool) -> NodeMemory {
    let bands = [0u8; BlobKind::N];
    let hbm = if split { 4 << 30 } else { 0 };
    NodeMemory {
        hbm,
        ddr: 8 << 30,
        nvme: 64 << 30,
        hbm_quota: Quota::open(hbm, bands),
        ddr_quota: Quota::open(8 << 30, bands),
        can_decode: true,
    }
}

#[test]
fn tier_of_agrees_with_accelerated_and_split_on_every_input() {
    for split in [false, true] {
        let h = hierarchy(split);
        for kind in BlobKind::ALL {
            let expect_hbm = split && accelerated(kind);
            let got = tier_of(h.hbm > 0, kind);
            assert_eq!(
                got == Tier::Hbm,
                expect_hbm,
                "kind={kind:?} split={split}: tier_of={got:?}"
            );
            // Nvme is never a class's resting home -- only Hbm or Ddr.
            assert_ne!(got, Tier::Nvme);
        }
    }
}

#[test]
fn hierarchy_authority_resolves_the_same_tier_as_home() {
    for split in [false, true] {
        let h = hierarchy(split);
        for kind in BlobKind::ALL {
            let tier = tier_of(h.hbm > 0, kind);
            let direct = authority(kind, tier, Question::Allocation);
            let via_hierarchy = home_authority(h.hbm > 0, kind, Question::Allocation);
            assert_eq!(direct, via_hierarchy, "kind={kind:?} split={split}");
        }
    }
}
