use not_rsync::rsync::apply_delta;
use not_rsync::rsync::is_diffable_signature;
use not_rsync::rsync::signature_of;
use not_rsync::rsync::RsyncError;
use not_rsync::rsync::SignatureOptions;
use not_rsync::sync::calculate_delta;

fn opts() -> SignatureOptions {
    SignatureOptions { block_size: 4, crypto_hash_size: 8 }
}

#[test]
fn signature_header_and_length() {
    let sig = signature_of(b"hello world", opts());
    assert_eq!(&sig[0..12], &[0x72, 0x73, 0x01, 0x36, 0, 0, 0, 4, 0, 0, 0, 8]);
    // three blocks of four CRC bytes and eight hash bytes
    assert_eq!(sig.len(), 12 + 3 * 12);
    assert!(is_diffable_signature(&sig));
}

#[test]
fn signature_of_nothing_is_a_header() {
    let sig = signature_of(b"", opts());
    assert_eq!(sig, vec![0x72, 0x73, 0x01, 0x36, 0, 0, 0, 4, 0, 0, 0, 8]);
    assert!(is_diffable_signature(&sig));
}

#[test]
fn garbage_is_not_a_signature() {
    assert!(!is_diffable_signature(b"not a signature"));
    assert!(!is_diffable_signature(&[]));
}

#[test]
fn blake2_signature_is_not_diffable() {
    let sig = vec![0x72, 0x73, 0x01, 0x37, 0, 0, 0, 4, 0, 0, 0, 8];
    assert!(!is_diffable_signature(&sig));
}

#[test]
fn zero_block_size_is_not_diffable() {
    let sig = vec![0x72, 0x73, 0x01, 0x36, 0, 0, 0, 0, 0, 0, 0, 8];
    assert!(!is_diffable_signature(&sig));
}

#[test]
fn oversized_hash_is_not_diffable() {
    let sig = vec![0x72, 0x73, 0x01, 0x36, 0, 0, 0, 4, 0, 0, 0, 17];
    assert!(!is_diffable_signature(&sig));
}

#[test]
fn oversized_hash_delta_is_an_error() {
    let sig = vec![0x72, 0x73, 0x01, 0x36, 0, 0, 0, 4, 0, 0, 0, 17];
    assert_eq!(calculate_delta(b"data", &sig), Err(RsyncError::Diff));
}

#[test]
fn delta_applies_to_base() {
    let base = b"this is a modified file".to_vec();
    let source = b"this is a base file".to_vec();
    let sig = signature_of(&base, opts());
    let delta = calculate_delta(&source, &sig).unwrap();
    assert_eq!(apply_delta(&base, &delta), Ok(source));
}

#[test]
fn garbage_delta_is_rejected() {
    assert_eq!(apply_delta(b"base", b"junk"), Err(RsyncError::Apply));
}
