use deadline_checker::plot::{check_nonce, plot_file_deadlines};
use deadline_checker::poc::{
    calculate_new_gensig, calculate_scoop, find_best_deadline_rust, noncegen_rust, NONCE_SIZE,
};
use shabal::{Digest, Shabal256};

fn digest(data: &[u8]) -> [u8; 32] {
    let out = Shabal256::digest(data);
    let mut h = [0u8; 32];
    h.copy_from_slice(&out);
    h
}

fn sample_gensig() -> [u8; 32] {
    let mut g = [0u8; 32];
    for (i, b) in g.iter_mut().enumerate() {
        *b = (i as u8).wrapping_mul(37).wrapping_add(11);
    }
    g
}

/// Plot generation written out straight from the proof-of-capacity definition.
fn reference_nonce(id: u64, nonce: u64) -> Vec<u8> {
    let mut gendata = vec![0u8; NONCE_SIZE + 16];
    gendata[NONCE_SIZE..NONCE_SIZE + 8].copy_from_slice(&id.to_be_bytes());
    gendata[NONCE_SIZE + 8..].copy_from_slice(&nonce.to_be_bytes());
    let mut i = NONCE_SIZE;
    while i > 0 {
        let len = std::cmp::min(NONCE_SIZE + 16 - i, 4096);
        let h = digest(&gendata[i..i + len]);
        gendata[i - 32..i].copy_from_slice(&h);
        i -= 32;
    }
    let fin = digest(&gendata);
    (0..NONCE_SIZE).map(|j| gendata[j] ^ fin[j % 32]).collect()
}

#[test]
fn shabal_matches_published_vector() {
    // the shabal crate documents this digest of "helloworld"
    let h = digest(b"helloworld");
    assert_eq!(
        hex::encode(h),
        "d945dee21ffca23ac232763aa9cac6c15805f144db9d6c97395437e01c8595a8"
    );
}

#[test]
fn scoop_is_last_twelve_bits_of_digest() {
    let g = sample_gensig();
    for height in [0u64, 1, 500_000, u64::MAX] {
        let mut data = g.to_vec();
        data.extend_from_slice(&height.to_be_bytes());
        let h = digest(&data);
        let expected = (((h[30] & 0x0f) as u32) << 8) | h[31] as u32;
        let scoop = calculate_scoop(height, &g);
        assert_eq!(scoop, expected);
        assert!(scoop < 4096);
    }
}

#[test]
fn new_gensig_hashes_gensig_and_generator() {
    let g = sample_gensig();
    let generator = 0x0123_4567_89ab_cdefu64;
    let mut data = g.to_vec();
    data.extend_from_slice(&generator.to_be_bytes());
    assert_eq!(calculate_new_gensig(generator, &g), digest(&data));
    assert_ne!(calculate_new_gensig(generator, &g), g);
}

#[test]
fn noncegen_matches_reference_definition() {
    let mut cache = vec![7u8; NONCE_SIZE + 100];
    noncegen_rust(&mut cache[..], 12345678901234567890, 42, 1);
    assert_eq!(&cache[..NONCE_SIZE], &reference_nonce(12345678901234567890, 42)[..]);
    assert!(cache[NONCE_SIZE..].iter().all(|b| *b == 7));
}

#[test]
fn noncegen_with_no_nonces_leaves_cache() {
    let mut cache = vec![9u8; 64];
    noncegen_rust(&mut cache[..], 1, 2, 0);
    assert_eq!(cache, vec![9u8; 64]);
}

fn deadline_of(gensig: &[u8; 32], scoop: &[u8]) -> u64 {
    let mut data = gensig.to_vec();
    data.extend_from_slice(scoop);
    let h = digest(&data);
    u64::from_le_bytes([h[0], h[1], h[2], h[3], h[4], h[5], h[6], h[7]])
}

#[test]
fn best_deadline_is_first_minimum() {
    let g = sample_gensig();
    let mut data = vec![0u8; 64 * 5];
    for (i, b) in data.iter_mut().enumerate() {
        *b = (i * 7 % 251) as u8;
    }
    // make scoop 3 a copy of scoop 1 so the minimum may appear twice
    let copy: Vec<u8> = data[64..128].to_vec();
    data[192..256].copy_from_slice(&copy);
    let deadlines: Vec<u64> = (0..5).map(|i| deadline_of(&g, &data[i * 64..i * 64 + 64])).collect();
    let min = *deadlines.iter().min().unwrap();
    let first = deadlines.iter().position(|d| *d == min).unwrap() as u64;
    assert_eq!(find_best_deadline_rust(&data, 5, &g), (min, first));
    assert_eq!(find_best_deadline_rust(&data, 1, &g), (deadlines[0], 0));
}

#[test]
fn best_deadline_of_no_scoops() {
    let g = sample_gensig();
    assert_eq!(find_best_deadline_rust(&[], 0, &g), (u64::MAX, 0));
}

#[test]
fn check_nonce_builds_poc1_and_poc2_scoops() {
    let g = sample_gensig();
    let height = 600_000u64;
    let nonce_bytes = reference_nonce(777, 3);
    let r = check_nonce(height, 777, 3, &g);
    let s = calculate_scoop(height, &g) as usize;
    assert_eq!(r.scoop as usize, s);
    let m = 4095 - s;
    assert_eq!(&r.poc1_scoop[..], &nonce_bytes[64 * s..64 * s + 64]);
    assert_eq!(&r.poc2_scoop[..32], &nonce_bytes[64 * s..64 * s + 32]);
    assert_eq!(&r.poc2_scoop[32..], &nonce_bytes[64 * m + 32..64 * m + 64]);
    assert_eq!(r.deadline_poc1, deadline_of(&g, &r.poc1_scoop));
    assert_eq!(r.deadline_poc2, deadline_of(&g, &r.poc2_scoop));
}

#[test]
fn plot_file_deadlines_mirror_second_hash() {
    let g = sample_gensig();
    let scoop: Vec<u8> = (0..64u8).collect();
    let mirror: Vec<u8> = (100..132u8).collect();
    let r = plot_file_deadlines(&scoop, &mirror, &g);
    let mut expected = scoop[..32].to_vec();
    expected.extend_from_slice(&mirror);
    assert_eq!(r.mirrored_scoop, expected);
    assert_eq!(r.deadline_mirrored, deadline_of(&g, &expected));
    assert_eq!(r.deadline_direct, deadline_of(&g, &scoop));
}
