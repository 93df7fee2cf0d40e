use anchor_registry::write_rule;
use anchor_registry::Anchor;
use anchor_registry::Fingerprint;
use anchor_registry::Identity;
use anchor_registry::RegistryError;

#[test]
fn unanchored_fingerprint_is_absent() {
    let registry = Anchor::new();
    assert_eq!(registry.verify(Fingerprint::new([0xBB; 32])), None);
    assert_eq!(registry.verify(Fingerprint::new([0x00; 32])), None);
}

#[test]
fn anchored_fingerprint_discloses_owner() {
    let mut registry = Anchor::new();
    let alice = Identity::new([0xA1; 32]);
    let r = registry.anchor(Fingerprint::new([0xAA; 32]), Some(alice));
    assert_eq!(r, Ok(()));
    assert_eq!(registry.verify(Fingerprint::new([0xAA; 32])), Some(alice));
    assert_eq!(registry.verify(Fingerprint::new([0xBB; 32])), None);
}

#[test]
fn anchoring_twice_under_same_identity_is_idempotent() {
    let mut registry = Anchor::new();
    let alice = Identity::new([0xA1; 32]);
    let f = Fingerprint::new([0xAA; 32]);
    assert_eq!(registry.anchor(f, Some(alice)), Ok(()));
    assert_eq!(registry.anchor(f, Some(alice)), Ok(()));
    assert_eq!(registry.verify(f), Some(alice));
}

#[test]
fn reanchoring_overwrites_owner() {
    let mut registry = Anchor::new();
    let alice = Identity::new([0xA1; 32]);
    let bob = Identity::new([0xB2; 32]);
    let f = Fingerprint::new([0xCC; 32]);
    assert_eq!(registry.anchor(f, Some(alice)), Ok(()));
    assert_eq!(registry.anchor(f, Some(bob)), Ok(()));
    assert_eq!(registry.verify(f), Some(bob));
}

#[test]
fn two_fingerprints_verify_independently() {
    let mut registry = Anchor::new();
    let alice = Identity::new([0xA1; 32]);
    let fa = Fingerprint::new([0xAA; 32]);
    let fb = Fingerprint::new([0xBB; 32]);
    assert_eq!(registry.anchor(fa, Some(alice)), Ok(()));
    assert_eq!(registry.anchor(fb, Some(alice)), Ok(()));
    assert_eq!(registry.verify(fa), Some(alice));
    assert_eq!(registry.verify(fb), Some(alice));
    assert_eq!(registry.verify(Fingerprint::new([0xCC; 32])), None);
}

#[test]
fn verify_leaves_state_unchanged() {
    let mut registry = Anchor::new();
    let alice = Identity::new([0xA1; 32]);
    let bob = Identity::new([0xB2; 32]);
    let fa = Fingerprint::new([0xAA; 32]);
    let fb = Fingerprint::new([0xBB; 32]);
    assert_eq!(registry.anchor(fa, Some(alice)), Ok(()));
    for _ in 0..5 {
        assert_eq!(registry.verify(fa), Some(alice));
        assert_eq!(registry.verify(fb), None);
    }
    assert_eq!(registry.anchor(fb, Some(bob)), Ok(()));
    assert_eq!(registry.verify(fa), Some(alice));
    assert_eq!(registry.verify(fb), Some(bob));
}

#[test]
fn missing_caller_identity_is_rejected() {
    let mut registry = Anchor::new();
    let f = Fingerprint::new([0xAA; 32]);
    assert_eq!(registry.anchor(f, None), Err(RegistryError::IdentityUnresolved));
    assert_eq!(registry.verify(f), None);
    let alice = Identity::new([0xA1; 32]);
    assert_eq!(registry.anchor(f, Some(alice)), Ok(()));
    assert_eq!(registry.anchor(f, None), Err(RegistryError::IdentityUnresolved));
    assert_eq!(registry.verify(f), Some(alice));
}

#[test]
fn write_rule_records_resolved_caller() {
    let alice = Identity::new([0xA1; 32]);
    let bob = Identity::new([0xB2; 32]);
    assert_eq!(write_rule(None, Some(alice)), Ok(alice));
    assert_eq!(write_rule(Some(alice), Some(bob)), Ok(bob));
}

#[test]
fn write_rule_refuses_unresolved_caller() {
    let alice = Identity::new([0xA1; 32]);
    assert_eq!(write_rule(None, None), Err(RegistryError::IdentityUnresolved));
    assert_eq!(write_rule(Some(alice), None), Err(RegistryError::IdentityUnresolved));
}

#[test]
fn fingerprint_bytes_round_trip() {
    let mut bytes = [0u8; 32];
    bytes[0] = 1;
    bytes[31] = 255;
    let f = Fingerprint::new(bytes);
    assert_eq!(f.to_bytes(), bytes);
    assert!(f.matches(&Fingerprint::new(bytes)));
    assert!(!f.matches(&Fingerprint::new([0u8; 32])));
}

#[test]
fn identity_bytes_round_trip() {
    let mut bytes = [7u8; 32];
    bytes[16] = 0;
    let i = Identity::new(bytes);
    assert_eq!(i.to_bytes(), bytes);
    assert!(i.matches(&Identity::new(bytes)));
    assert!(!i.matches(&Identity::new([7u8; 32])));
}
