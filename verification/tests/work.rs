use csd_asic_proxy::hextext::to_hex;
use csd_asic_proxy::merkle::fold;
use csd_asic_proxy::stratum::job::Job;
use csd_asic_proxy::target::{bits_to_target, diff_to_target, hash_meets_diff, hash_meets_target};

fn leaves(n: u8) -> Vec<[u8; 32]> {
    (1..=n).map(|i| [i; 32]).collect()
}

#[test]
fn compact_targets_expand() {
    let mut want = [0u8; 32];
    want[4] = 0xff;
    want[5] = 0xff;
    assert_eq!(bits_to_target(0x1d00_ffff), want);
    let mut top = [0u8; 32];
    top[0] = 0x12;
    top[1] = 0x34;
    top[2] = 0x56;
    assert_eq!(bits_to_target(0x2012_3456), top);
    let mut low = [0u8; 32];
    low[31] = 1;
    assert_eq!(bits_to_target(0x0300_0001), low);
}

#[test]
fn void_compact_targets_are_zero() {
    for bits in [0u32, 0x0212_3456, 0x2112_3456, 0xff00_0001, 0x1d00_0000] {
        assert_eq!(bits_to_target(bits), [0u8; 32]);
        assert!(hash_meets_target(&[0u8; 32], &bits_to_target(bits)));
        let mut one = [0u8; 32];
        one[31] = 1;
        assert!(!hash_meets_target(&one, &bits_to_target(bits)));
    }
}

#[test]
fn hashes_are_compared_highest_byte_first() {
    let target = bits_to_target(0x1d00_ffff);
    let mut hash = target;
    assert!(hash_meets_target(&hash, &target));
    hash[31] = 1;
    assert!(!hash_meets_target(&hash, &target));
    hash[5] = 0xfe;
    assert!(hash_meets_target(&hash, &target));
    hash[0] = 1;
    assert!(!hash_meets_target(&hash, &target));
}

#[test]
fn share_targets_hold_the_low_six_bytes() {
    let t = diff_to_target(0x1122_3344_5566_7788);
    let mut want = [0u8; 32];
    want[26..32].copy_from_slice(&[0x88, 0x77, 0x66, 0x55, 0x44, 0x33]);
    assert_eq!(t, want);
    assert_eq!(diff_to_target(0), [0u8; 32]);
}

#[test]
fn shares_are_compared_lowest_byte_first() {
    let mut hash = diff_to_target(0xffff);
    assert!(hash_meets_diff(&hash, 0xffff));
    hash[0] = 1;
    assert!(!hash_meets_diff(&hash, 0xffff));
    hash[27] = 0xfe;
    assert!(hash_meets_diff(&hash, 0xffff));
    hash[31] = 1;
    assert!(!hash_meets_diff(&hash, 0xffff));
    assert!(hash_meets_diff(&[0u8; 32], 0));
}

#[test]
fn merkle_path_of_the_first_transaction() {
    let path = Job::coinbase_merkle_path(&leaves(5));
    let texts: Vec<String> = path.iter().map(|h| to_hex(h)).collect();
    assert_eq!(
        texts,
        vec![
            "0202020202020202020202020202020202020202020202020202020202020202",
            "c3a6b10a4ddcdf9561d3c6f44a09c6ecd380486275674e74f5503429230b7cf2",
            "b93bfcfb094ddf2b2ef0feb482bbd018bf1ef5c08bd9620727d212fcb11311dd",
        ]
    );
    assert_eq!(
        to_hex(&fold([1; 32], &path)),
        "26e2870f72368b3f8baef83fa26282d95d9c194e1f33d90a12932e0f6022e5d3"
    );
}

#[test]
fn merkle_path_of_small_blocks() {
    assert!(Job::coinbase_merkle_path(&[]).is_empty());
    assert!(Job::coinbase_merkle_path(&leaves(1)).is_empty());
    assert_eq!(Job::coinbase_merkle_path(&leaves(2)), vec![[2u8; 32]]);
    assert_eq!(fold([9; 32], &[]), [9; 32]);
}

#[test]
fn merkle_path_does_not_depend_on_the_first_leaf() {
    for n in 1..12 {
        let mut other = leaves(n);
        other[0] = [0; 32];
        assert_eq!(
            Job::coinbase_merkle_path(&leaves(n)),
            Job::coinbase_merkle_path(&other)
        );
    }
}
