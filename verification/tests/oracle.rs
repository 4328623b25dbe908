use collidervm_toy::flow_id::{
    calculate_flow_id, compute_flow_digest, find_valid_nonce, find_valid_nonce_up_to,
    flow_id_from_digest, flow_message_bytes, search_attempt_cap, FlowError,
};
use collidervm_toy::nibble::{bytes_to_nibbles, flow_id_to_prefix_bytes};

const DIGEST_123_3545: [u8; 32] = [
    0x0d, 0x00, 0xa1, 0x3b, 0x37, 0x00, 0xb6, 0xc5, 0x17, 0x48, 0x28, 0x4a, 0x4e, 0x7b, 0x96, 0xaf,
    0x6c, 0x36, 0x58, 0x3f, 0xb8, 0xa1, 0x4c, 0xeb, 0x7c, 0x45, 0x7b, 0xb9, 0x47, 0x36, 0x65, 0x94,
];

const DIGEST_123_0: [u8; 32] = [
    0xbb, 0xa4, 0x6d, 0xf4, 0x3b, 0xc9, 0xd5, 0x59, 0x89, 0x2d, 0xee, 0xbb, 0x18, 0x2e, 0x3d, 0x24,
    0xe8, 0x6a, 0xb6, 0x70, 0x0a, 0xf5, 0x25, 0x37, 0xa3, 0xba, 0x31, 0x8a, 0x8a, 0xad, 0x60, 0x34,
];

fn digest_starting(head: [u8; 4]) -> [u8; 32] {
    let mut digest = [0x5a; 32];
    digest[..4].copy_from_slice(&head);
    digest
}

#[test]
fn message_is_input_then_nonce_little_endian() {
    assert_eq!(
        flow_message_bytes(123, 3545),
        vec![0x7b, 0x00, 0x00, 0x00, 0xd9, 0x0d, 0x00, 0x00, 0x00, 0x00, 0x00, 0x00]
    );
    assert_eq!(
        flow_message_bytes(0x0102_0304, 0x1112_1314_1516_1718),
        vec![4, 3, 2, 1, 0x18, 0x17, 0x16, 0x15, 0x14, 0x13, 0x12, 0x11]
    );
    assert_eq!(flow_message_bytes(u32::MAX, u64::MAX), vec![0xff; 12]);
}

#[test]
fn digest_is_blake3_of_the_message() {
    assert_eq!(compute_flow_digest(123, 0), DIGEST_123_0);
    assert_eq!(compute_flow_digest(123, 3545), DIGEST_123_3545);
    for &(input, nonce) in [(0u32, 0u64), (123, 1), (u32::MAX, u64::MAX)].iter() {
        let mut hasher = blake3::Hasher::new();
        hasher.update(&input.to_le_bytes());
        hasher.update(&nonce.to_le_bytes());
        assert_eq!(&compute_flow_digest(input, nonce), hasher.finalize().as_bytes());
    }
}

#[test]
fn flow_id_masks_the_first_four_bytes() {
    let digest = digest_starting([0x78, 0x56, 0x34, 0x12]);
    assert_eq!(flow_id_from_digest(&digest, 32, 32), Ok(0x1234_5678));
    assert_eq!(flow_id_from_digest(&digest, 24, 24), Ok(0x34_5678));
    assert_eq!(flow_id_from_digest(&digest, 16, 16), Ok(0x5678));
    assert_eq!(flow_id_from_digest(&digest, 8, 8), Ok(0x78));
    assert_eq!(flow_id_from_digest(&digest, 12, 12), Ok(0x678));
    assert_eq!(flow_id_from_digest(&digest, 1, 1), Ok(0));
    assert_eq!(flow_id_from_digest(&digest, 0, 0), Ok(0));
}

#[test]
fn flow_id_is_accepted_exactly_below_two_to_the_l() {
    let digest = digest_starting([0x10, 0x00, 0x00, 0x00]);
    assert_eq!(flow_id_from_digest(&digest, 16, 5), Ok(16));
    assert_eq!(flow_id_from_digest(&digest, 16, 4), Err(FlowError::OutOfRange { prefix: 16 }));
    let below = digest_starting([0x0f, 0x00, 0x00, 0x00]);
    assert_eq!(flow_id_from_digest(&below, 16, 4), Ok(15));
    assert_eq!(flow_id_from_digest(&below, 16, 0), Err(FlowError::OutOfRange { prefix: 15 }));
    let zero = digest_starting([0x00, 0x00, 0xff, 0xff]);
    assert_eq!(flow_id_from_digest(&zero, 16, 0), Ok(0));
}

#[test]
fn full_width_mask_keeps_all_32_bits() {
    let digest = digest_starting([0xff, 0xff, 0xff, 0xff]);
    assert_eq!(flow_id_from_digest(&digest, 32, 32), Ok(u32::MAX));
    assert_eq!(flow_id_from_digest(&digest, 40, 32), Ok(u32::MAX));
    assert_eq!(flow_id_from_digest(&digest, usize::MAX, 64), Ok(u32::MAX));
    assert_eq!(flow_id_from_digest(&digest, 32, usize::MAX), Ok(u32::MAX));
    assert_eq!(
        flow_id_from_digest(&digest, 32, 31),
        Err(FlowError::OutOfRange { prefix: u32::MAX })
    );
    assert_eq!(flow_id_from_digest(&digest, 31, 31), Ok(0x7fff_ffff));
}

#[test]
fn flow_id_of_a_nonce_that_is_out_of_range() {
    assert_eq!(calculate_flow_id(123, 0, 16, 4), Err(FlowError::OutOfRange { prefix: 0xa4bb }));
    assert_eq!(calculate_flow_id(123, 0, 8, 4), Err(FlowError::OutOfRange { prefix: 0xbb }));
    assert_eq!(calculate_flow_id(123, 0, 32, 32), Ok((0xf46d_a4bb, DIGEST_123_0)));
}

#[test]
fn flow_id_of_a_nonce_that_is_in_range() {
    assert_eq!(calculate_flow_id(123, 3545, 16, 4), Ok((13, DIGEST_123_3545)));
    assert_eq!(calculate_flow_id(123, 3545, 16, 3), Err(FlowError::OutOfRange { prefix: 13 }));
}

#[test]
fn attempt_cap_is_a_hundred_times_two_to_the_spread() {
    assert_eq!(search_attempt_cap(16, 4), 409_600);
    assert_eq!(search_attempt_cap(8, 8), 100);
    assert_eq!(search_attempt_cap(32, 0), 100 * (1u64 << 32));
    assert_eq!(search_attempt_cap(57, 0), 14_411_518_807_585_587_200);
}

#[test]
fn attempt_cap_saturates() {
    assert_eq!(search_attempt_cap(4, 16), 100);
    assert_eq!(search_attempt_cap(0, usize::MAX), 100);
    assert_eq!(search_attempt_cap(58, 0), u64::MAX);
    assert_eq!(search_attempt_cap(63, 0), u64::MAX);
    assert_eq!(search_attempt_cap(64, 0), u64::MAX);
    assert_eq!(search_attempt_cap(usize::MAX, 0), u64::MAX);
}

#[test]
fn search_finds_the_first_valid_nonce() {
    assert_eq!(find_valid_nonce(123, 16, 4), Ok((3545, DIGEST_123_3545, 13)));
    for nonce in 0..3545 {
        assert!(matches!(
            calculate_flow_id(123, nonce, 16, 4),
            Err(FlowError::OutOfRange { .. })
        ));
    }
}

#[test]
fn search_stays_within_its_cap_and_in_range() {
    let cases = [(8usize, 0usize), (8, 4), (8, 8), (16, 4), (16, 8), (16, 16), (24, 16), (24, 24), (32, 24), (32, 32)];
    for &(b_bits, l_bits) in cases.iter() {
        for input in [0u32, 7, 123] {
            let (nonce, digest, flow_id) = find_valid_nonce(input, b_bits, l_bits).unwrap();
            assert!(nonce <= search_attempt_cap(b_bits, l_bits));
            assert!((flow_id as u64) < (1u64 << l_bits));
            assert_eq!(digest, compute_flow_digest(input, nonce));
            assert_eq!(flow_id_from_digest(&digest, b_bits, l_bits), Ok(flow_id));
        }
    }
}

#[test]
fn search_results_for_each_prefix_width() {
    let found8 = find_valid_nonce(123, 8, 4).unwrap();
    assert_eq!((found8.0, found8.2), (3, 14));
    let found24 = find_valid_nonce(7, 24, 16).unwrap();
    assert_eq!((found24.0, found24.2), (54, 51419));
    let found32 = find_valid_nonce(7, 32, 24).unwrap();
    assert_eq!((found32.0, found32.2), (195, 1314248));
    let full = find_valid_nonce(7, 32, 32).unwrap();
    assert_eq!((full.0, full.2), (0, 1101550339));
}

#[test]
fn search_is_deterministic() {
    for &(input, b_bits, l_bits) in [(123u32, 16usize, 4usize), (7, 24, 16), (0, 8, 2)].iter() {
        assert_eq!(find_valid_nonce(input, b_bits, l_bits), find_valid_nonce(input, b_bits, l_bits));
    }
}

#[test]
fn search_accepts_at_once_when_l_exceeds_b() {
    let (nonce, digest, flow_id) = find_valid_nonce(123, 8, 16).unwrap();
    assert_eq!(nonce, 0);
    assert_eq!(digest, DIGEST_123_0);
    assert_eq!(flow_id, 0xbb);
}

#[test]
fn prefix_of_a_found_flow_is_the_head_of_the_digest() {
    for &(input, b_bits, l_bits) in [(123u32, 16usize, 4usize), (7, 8, 4), (7, 24, 16), (7, 32, 24)].iter() {
        let (_, digest, flow_id) = find_valid_nonce(input, b_bits, l_bits).unwrap();
        let prefix = flow_id_to_prefix_bytes(flow_id, b_bits);
        assert_eq!(prefix, bytes_to_nibbles(&digest)[..b_bits / 4].to_vec());
    }
}

#[test]
fn search_is_exhausted_when_no_nonce_up_to_the_last_is_valid() {
    assert_eq!(find_valid_nonce_up_to(123, 16, 4, 0), Err(FlowError::SearchExhausted));
    assert_eq!(find_valid_nonce_up_to(123, 16, 4, 100), Err(FlowError::SearchExhausted));
    assert_eq!(find_valid_nonce_up_to(123, 16, 4, 3544), Err(FlowError::SearchExhausted));
}

#[test]
fn search_tries_the_last_nonce_too() {
    assert_eq!(find_valid_nonce_up_to(123, 16, 4, 3545), Ok((3545, DIGEST_123_3545, 13)));
    assert_eq!(find_valid_nonce_up_to(123, 16, 4, 3546), Ok((3545, DIGEST_123_3545, 13)));
    assert_eq!(find_valid_nonce_up_to(123, 16, 4, u64::MAX), Ok((3545, DIGEST_123_3545, 13)));
    assert_eq!(find_valid_nonce_up_to(123, 8, 16, 0), Ok((0, DIGEST_123_0, 0xbb)));
}
