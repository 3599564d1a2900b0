use rendezvous::identity::{generate_deterministic_keypair, IdentityKey};

/// The published seed whose derived identities all fall at one
/// topological distance from the first — the bucket-collision topology
/// the scenario stresses.
const COLLIDING_SEED: u64 = 122488;

#[test]
fn generation_is_deterministic() {
    let a = generate_deterministic_keypair(20, COLLIDING_SEED).unwrap();
    let b = generate_deterministic_keypair(20, COLLIDING_SEED).unwrap();
    assert_eq!(a.len(), 20);
    assert_eq!(b.len(), 20);
    for i in 0..20 {
        assert_eq!(a[i].bytes(), b[i].bytes());
    }
    let c = generate_deterministic_keypair(5, 7).unwrap();
    let d = generate_deterministic_keypair(5, 7).unwrap();
    for i in 0..5 {
        assert_eq!(c[i].bytes(), d[i].bytes());
    }
}

#[test]
fn generated_keys_are_valid_scalars() {
    let keys = generate_deterministic_keypair(8, 1).unwrap();
    for k in &keys {
        assert_eq!(k.bytes().len(), 32);
        // Accepted by the signing curve itself.
        let mut raw = k.bytes().clone();
        enr::CombinedKey::secp256k1_from_bytes(&mut raw).expect("valid scalar");
    }
}

#[test]
fn prefix_of_longer_generation_matches() {
    // Per-index seeding: the first k keys do not depend on the count.
    let long = generate_deterministic_keypair(20, COLLIDING_SEED).unwrap();
    let short = generate_deterministic_keypair(3, COLLIDING_SEED).unwrap();
    for i in 0..3 {
        assert_eq!(long[i].bytes(), short[i].bytes());
    }
}

#[test]
fn rebuild_from_published_bytes() {
    let keys = generate_deterministic_keypair(2, 42).unwrap();
    let raw = keys[0].bytes().clone();
    let rebuilt = IdentityKey::from_bytes(raw.clone()).unwrap();
    assert_eq!(rebuilt.bytes(), &raw);
    // An all-zero candidate is not a scalar.
    assert!(IdentityKey::from_bytes(vec![0u8; 32]).is_err());
    // A wrong length is not a scalar encoding.
    assert!(IdentityKey::from_bytes(vec![1u8; 16]).is_err());
}

fn node_id_of(key: &IdentityKey) -> [u8; 32] {
    let mut raw = key.bytes().clone();
    let enr_key = enr::CombinedKey::secp256k1_from_bytes(&mut raw).expect("valid scalar");
    let record = enr::Enr::<enr::CombinedKey>::builder().build(&enr_key).expect("build record");
    record.node_id().raw()
}

fn log2_distance(a: &[u8; 32], b: &[u8; 32]) -> u32 {
    for i in 0..32 {
        let x = a[i] ^ b[i];
        if x != 0 {
            return (31 - i as u32) * 8 + (8 - x.leading_zeros());
        }
    }
    0
}

#[test]
fn colliding_seed_puts_peers_in_one_bucket() {
    // For the published seed, the topological distance between the first
    // identity and each later one is the same, independent of the
    // discovery protocol itself.
    let keys = generate_deterministic_keypair(20, COLLIDING_SEED).unwrap();
    let reference = node_id_of(&keys[0]);
    let first = log2_distance(&reference, &node_id_of(&keys[1]));
    assert!(first > 0);
    for k in keys.iter().skip(1) {
        let d = log2_distance(&reference, &node_id_of(k));
        assert_eq!(d, first);
    }
}
