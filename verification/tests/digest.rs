use open_comm::digest::{
    hash, secure_hash, ContentHasher, CONTENT_HASH_LEN, CREDENTIAL_HASH_LEN,
};

#[test]
fn content_hash_of_abc_is_sha3_224() {
    assert_eq!(hash(b"abc"), "e642824c3f8cf24ad09234ee7d3c766fc9a3a5168d0c94ad73b46fdf");
}

#[test]
fn content_hash_of_nothing_is_sha3_224_of_empty_input() {
    assert_eq!(hash(b""), "6b4e03423667dbb73b6e15454f0eb1abd4597f9a1b078e3f5b5a6bc7");
}

#[test]
fn content_hash_is_56_hex_digits_and_differs_from_input() {
    let hex = hash(b"e642824c3f8cf24ad09234ee7d3c766fc9a3a5168d0c94ad73b46fdf");
    assert_eq!(hex.len(), 56);
    assert!(hex.chars().all(|c| c.is_ascii_hexdigit()));
    assert_ne!(hex, "e642824c3f8cf24ad09234ee7d3c766fc9a3a5168d0c94ad73b46fdf");
}

#[test]
fn credential_hash_of_abc_is_sha3_256() {
    assert_eq!(
        secure_hash("abc"),
        "3a985da74fe225b2045c172d6bd390bd855f086e3e9d525b46bfe24511431532"
    );
}

#[test]
fn chunked_hash_equals_hash_of_the_whole() {
    let whole: Vec<u8> = (0..1000u32).map(|i| (i % 251) as u8).collect();
    let mut hasher = ContentHasher::new();
    hasher.update(&whole[..1]);
    hasher.update(&whole[1..144]);
    hasher.update(&whole[144..145]);
    hasher.update(&[]);
    hasher.update(&whole[145..]);
    assert_eq!(hasher.finish(), hash(&whole));
}

#[test]
fn chunk_order_matters() {
    let mut ab = ContentHasher::new();
    ab.update(b"a");
    ab.update(b"b");
    let mut ba = ContentHasher::new();
    ba.update(b"b");
    ba.update(b"a");
    assert_eq!(ab.finish(), hash(b"ab"));
    assert_eq!(ba.finish(), hash(b"ba"));
    assert_ne!(hash(b"ab"), hash(b"ba"));
}

#[test]
fn hasher_fed_nothing_gives_the_empty_hash() {
    assert_eq!(ContentHasher::new().finish(), hash(b""));
}

#[test]
fn digests_have_their_fixed_lengths() {
    for input in [&b""[..], b"a", &[0u8; 1000]] {
        assert_eq!(hash(input).len(), CONTENT_HASH_LEN);
    }
    assert_eq!(CONTENT_HASH_LEN, 56);
    assert_eq!(secure_hash("").len(), CREDENTIAL_HASH_LEN);
    assert_eq!(secure_hash("a longer password with salt").len(), 64);
    assert!(secure_hash("x").chars().all(|c| c.is_ascii_digit() || ('a'..='f').contains(&c)));
}
