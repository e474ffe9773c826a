use tlsign::random::{getrandom, RandomSource};

fn draw(seed: [u8; 32], lens: &[usize]) -> Vec<Vec<u8>> {
    let mut source = RandomSource::new();
    source.seed_with(seed);
    let mut out = Vec::new();
    for &n in lens {
        let mut buf = vec![0u8; n];
        source.fill(&mut buf);
        out.push(buf);
    }
    out
}

#[test]
fn same_seed_same_bytes() {
    let seed = [7u8; 32];
    let lens = [1, 3, 4, 17, 64, 0, 130, 5];
    let a = draw(seed, &lens);
    let b = draw(seed, &lens);
    assert_eq!(a, b);
    assert_eq!(a.iter().map(|c| c.len()).collect::<Vec<_>>(), lens.to_vec());
}

#[test]
fn different_seeds_differ() {
    assert_ne!(draw([1u8; 32], &[32]), draw([2u8; 32], &[32]));
}

#[test]
fn zero_seed_four_bytes() {
    let first = draw([0u8; 32], &[4]);
    let second = draw([0u8; 32], &[4]);
    assert_eq!(first, second);
    // The first word of the ChaCha20 keystream for an all-zero key and nonce.
    assert_eq!(first[0], vec![0x76, 0xb8, 0xe0, 0xad]);
}

#[test]
fn empty_fill_uses_nothing() {
    let with_empty = draw([4u8; 32], &[4, 0, 4]);
    let without = draw([4u8; 32], &[4, 4]);
    assert_eq!(with_empty[2], without[1]);
}

#[test]
fn fills_use_whole_words() {
    let two = draw([4u8; 32], &[4, 4]);
    let one = draw([4u8; 32], &[8]);
    assert_eq!([two[0].clone(), two[1].clone()].concat(), one[0]);
    // A fill of one byte still uses a whole word.
    let short = draw([4u8; 32], &[1, 4]);
    assert_eq!(short[0][0], one[0][0]);
    assert_eq!(short[1], one[0][4..8].to_vec());
}

#[test]
fn override_works() {
    let mut source = RandomSource::new();
    source.seed_with([1u8; 32]);
    let mut buf = [0u8; 8];
    source.fill(&mut buf);
    source.seed_with([5u8; 32]);
    let mut after = [0u8; 16];
    source.fill(&mut after);
    assert_eq!(after.to_vec(), draw([5u8; 32], &[16])[0]);
}

#[test]
fn unseeded_source_reports_it() {
    let mut source = RandomSource::new();
    assert!(!source.is_seeded());
    source.seed_with([0u8; 32]);
    assert!(source.is_seeded());
}

#[test]
fn getrandom_draws_from_source() {
    let mut source = RandomSource::new();
    source.seed_with([0u8; 32]);
    let mut buf = [0u8; 4];
    getrandom(&mut source, &mut buf);
    assert_eq!(buf, [0x76, 0xb8, 0xe0, 0xad]);
}
