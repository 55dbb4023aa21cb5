use std::cmp::Ordering;
use xlindisk::model::fingerprint::{
    Fingerprint, FingerprintSpec, VerificationMode, VerificationStatus, FINGERPRINT_ALGORITHM,
    FINGERPRINT_ALGORITHM_VERSION,
};

#[test]
fn ordering_is_byte_level() {
    let mut a = Fingerprint::zero();
    a.bytes[31] = 1;
    let mut b = Fingerprint::zero();
    b.bytes[0] = 1;
    assert!(b > a, "high-order bytes must dominate");
}

#[test]
fn only_confirmed_statuses_count() {
    assert!(VerificationStatus::HashMatched.is_confirmed());
    assert!(VerificationStatus::ByteExactVerified.is_confirmed());
    assert!(!VerificationStatus::ChangedDuringScan.is_confirmed());
    assert!(!VerificationStatus::Unreadable.is_confirmed());
    assert!(!VerificationStatus::Unverified.is_confirmed());
}

#[test]
fn cmp_bytes_agrees_with_the_derived_order() {
    let mut a = Fingerprint::zero();
    a.bytes[31] = 1;
    let mut b = Fingerprint::zero();
    b.bytes[0] = 1;
    assert_eq!(b.cmp_bytes(&a), Ordering::Greater);
    assert_eq!(a.cmp_bytes(&b), Ordering::Less);
    assert_eq!(a.cmp_bytes(&a), Ordering::Equal);
    assert_eq!(a.cmp_bytes(&b), a.cmp(&b));
    assert_eq!(Fingerprint::zero().bytes, [0u8; 32]);
}

#[test]
fn debug_string_shows_the_first_eight_bytes_in_hex() {
    let mut f = Fingerprint::zero();
    f.bytes[0] = 0xab;
    f.bytes[1] = 0x01;
    f.bytes[7] = 0xff;
    f.bytes[8] = 0xee;
    assert_eq!(f.debug_string(), "Fingerprint(ab010000000000ff…)");
}

#[test]
fn defaults_and_algorithm_tags() {
    assert_eq!(
        FingerprintSpec::default(),
        FingerprintSpec::Partial {
            prefix_bytes: 4096,
            suffix_bytes: 4096
        }
    );
    assert_eq!(VerificationMode::default(), VerificationMode::Hash);
    assert_eq!(FINGERPRINT_ALGORITHM, "blake3");
    assert_eq!(FINGERPRINT_ALGORITHM_VERSION, 1);
}
