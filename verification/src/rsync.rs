//! The rsync primitives: block signatures, deltas against a signature, and
//! patching a base with a delta. The work is done by `fast_rsync`; this module
//! states what its calls return and checks the signature format that the
//! client and the server exchange.

use vstd::prelude::*;

use crate::be_bytes;
use crate::be_value;
use crate::lemma_be_roundtrip;

verus! {

/// `fast_rsync`'s error for bytes that are not a signature.
#[verifier::external_type_specification]
#[verifier::external_body]
pub struct ExSignatureParseError(fast_rsync::SignatureParseError);

/// `fast_rsync`'s error for a delta that could not be computed.
#[verifier::external_type_specification]
#[verifier::external_body]
pub struct ExDiffError(fast_rsync::DiffError);

/// `fast_rsync`'s error for a delta that could not be applied.
#[verifier::external_type_specification]
#[verifier::external_body]
pub struct ExApplyError(fast_rsync::ApplyError);

/// The serialized signature that `fast_rsync::Signature::calculate` computes
/// for `buf` with the given block size and hash size.
pub uninterp spec fn fast_rsync_signature(buf: Seq<u8>, block_size: u32, crypto_hash_size: u32) -> Seq<u8>;

/// The delta that `fast_rsync::diff` writes for `data` against the signature
/// serialized as `signature`.
pub uninterp spec fn fast_rsync_delta(signature: Seq<u8>, data: Seq<u8>) -> Seq<u8>;

/// What `fast_rsync::apply` produces from `base` and `delta`: `None` where it
/// reports an error.
pub uninterp spec fn fast_rsync_patched(base: Seq<u8>, delta: Seq<u8>) -> Option<Seq<u8>>;

/// The magic number that opens an MD4 signature.
pub open spec fn md4_magic() -> u32 {
    0x72730136
}

/// The magic number that opens a BLAKE2 signature.
pub open spec fn blake2_magic() -> u32 {
    0x72730137
}

/// Largest number of hash bytes an MD4 signature can keep per block.
pub open spec fn md4_size() -> u32 {
    16
}

/// The block size that a serialized signature declares.
pub open spec fn signature_block_size(s: Seq<u8>) -> int {
    be_value(s.skip(4))
}

/// The per-block hash size that a serialized signature declares.
pub open spec fn signature_hash_size(s: Seq<u8>) -> int {
    be_value(s.skip(8))
}

/// Bytes that `fast_rsync::Signature::deserialize` accepts: a twelve-byte
/// header (magic, block size, hash size) followed by whole block entries of
/// four CRC bytes and the hash bytes each.
pub open spec fn valid_signature(s: Seq<u8>) -> bool {
    &&& s.len() >= 12
    &&& (be_value(s) == md4_magic() || be_value(s) == blake2_magic())
    &&& (s.len() - 12) % (4 + signature_hash_size(s)) == 0
}

/// A signature that a delta can be computed against: a valid MD4 signature
/// with a positive block size and at most sixteen hash bytes per block.
pub open spec fn signature_diffable(s: Seq<u8>) -> bool {
    &&& valid_signature(s)
    &&& be_value(s) == md4_magic()
    &&& signature_block_size(s) > 0
    &&& signature_hash_size(s) <= md4_size()
}

/// The header of an MD4 signature with these options.
pub open spec fn md4_signature_header(block_size: u32, crypto_hash_size: u32) -> Seq<u8> {
    be_bytes(md4_magic()) + be_bytes(block_size) + be_bytes(crypto_hash_size)
}

/// Options for computing a signature.
#[derive(Clone, Copy, Debug, PartialEq, Eq, Structural)]
pub struct SignatureOptions {
    /// The granularity of the signature, in bytes.
    pub block_size: u32,
    /// How many bytes of each block's MD4 hash the signature keeps.
    pub crypto_hash_size: u32,
}

impl SignatureOptions {
    /// Options that `fast_rsync` accepts: a positive block size and at most
    /// sixteen hash bytes.
    pub open spec fn valid(self) -> bool {
        self.block_size > 0 && self.crypto_hash_size <= md4_size()
    }
}

/// Errors of the rsync steps.
#[derive(Debug, PartialEq, Eq, Structural)]
pub enum RsyncError {
    /// The bytes are not a signature.
    InvalidSignature,
    /// No delta could be computed against the signature.
    Diff,
    /// The delta could not be applied to the base.
    Apply,
}

/// Calls `fast_rsync::Signature::calculate` and hands back the serialized
/// signature. Claims that the result is `fast_rsync_signature` of the
/// arguments and, as the source builds it, that it opens with the MD4 header
/// for these options and goes on with whole entries of `4 + crypto_hash_size`
/// bytes. The source panics on a zero block size or a hash size over sixteen,
/// which `requires` leaves out.
#[verifier::external_body]
fn signature_calculate(buf: &[u8], block_size: u32, crypto_hash_size: u32) -> (sig: Vec<u8>)
    requires
        block_size > 0,
        crypto_hash_size <= md4_size(),
    ensures
        sig@ == fast_rsync_signature(buf@, block_size, crypto_hash_size),
        sig@.len() >= 12,
        sig@.take(12) == md4_signature_header(block_size, crypto_hash_size),
        (sig@.len() - 12) % (4 + crypto_hash_size) == 0,
{
    let options = fast_rsync::SignatureOptions { block_size, crypto_hash_size };
    fast_rsync::Signature::calculate(buf, options).into_serialized()
}

/// Calls `fast_rsync::Signature::deserialize`. Claims what its source checks:
/// it accepts exactly the bytes of `valid_signature`, and keeps them as the
/// serialized signature. The source adds four to the declared hash size in a
/// `usize`; `requires` leaves out the sizes where that overflows.
#[verifier::external_body]
fn signature_deserialize(bytes: Vec<u8>) -> (res: Result<Vec<u8>, fast_rsync::SignatureParseError>)
    requires
        bytes@.len() >= 12 ==> signature_hash_size(bytes@) + 4 <= usize::MAX,
    ensures
        res is Ok <==> valid_signature(bytes@),
        res matches Ok(v) ==> v@ == bytes@,
{
    match fast_rsync::Signature::deserialize(bytes) {
        Ok(sig) => Ok(sig.into_serialized()),
        Err(e) => Err(e),
    }
}

/// Calls `fast_rsync::diff` on the indexed signature read from `signature`
/// and collects the delta; reading the signature (`Signature::deserialize`
/// and `Signature::index`) converts the argument and cannot fail on the bytes
/// that `requires` admits. Claims what the source of `diff` shows: it fails
/// exactly when the signature is not MD4 or keeps more than sixteen hash
/// bytes, and otherwise writes `fast_rsync_delta` of its arguments. The
/// source loops without end or panics on a zero block size, and reading the
/// signature overflows on hash sizes near `usize::MAX`; `requires` leaves
/// both out.
#[verifier::external_body]
pub(crate) fn delta_diff(signature: &[u8], data: &[u8]) -> (res: Result<Vec<u8>, fast_rsync::DiffError>)
    requires
        valid_signature(signature@),
        signature_block_size(signature@) > 0,
        signature_hash_size(signature@) + 4 <= usize::MAX,
    ensures
        res is Ok <==> (be_value(signature@) == md4_magic() && signature_hash_size(signature@)
            <= md4_size()),
        res matches Ok(d) ==> d@ == fast_rsync_delta(signature@, data@),
{
    match fast_rsync::Signature::deserialize(signature.to_vec()) {
        Ok(sig) => {
            let mut out: Vec<u8> = Vec::new();
            match fast_rsync::diff(&sig.index(), data, &mut out) {
                Ok(()) => Ok(out),
                Err(e) => Err(e),
            }
        },
        Err(_) => Err(fast_rsync::DiffError::InvalidSignature),
    }
}

/// Calls `fast_rsync::apply` and collects its output. Claims that it succeeds
/// exactly where `fast_rsync_patched` is `Some`, with that output.
#[verifier::external_body]
fn patch_apply(base: &[u8], delta: &[u8]) -> (res: Result<Vec<u8>, fast_rsync::ApplyError>)
    ensures
        res is Ok <==> fast_rsync_patched(base@, delta@) is Some,
        res matches Ok(v) ==> fast_rsync_patched(base@, delta@) == Some(v@),
{
    let mut out: Vec<u8> = Vec::new();
    match fast_rsync::apply(base, delta, &mut out) {
        Ok(()) => Ok(out),
        Err(e) => Err(e),
    }
}

/// The header facts of a signature computed with valid options make it one
/// that deltas can be computed against.
proof fn lemma_header_diffable(sig: Seq<u8>, block_size: u32, crypto_hash_size: u32)
    requires
        sig.len() >= 12,
        sig.take(12) == md4_signature_header(block_size, crypto_hash_size),
        (sig.len() - 12) % (4 + crypto_hash_size) == 0,
    ensures
        be_value(sig) == md4_magic(),
        signature_block_size(sig) == block_size,
        signature_hash_size(sig) == crypto_hash_size,
        valid_signature(sig),
{
    lemma_be_roundtrip(md4_magic());
    lemma_be_roundtrip(block_size);
    lemma_be_roundtrip(crypto_hash_size);
    let h = md4_signature_header(block_size, crypto_hash_size);
    assert(sig[0] == h[0] && sig[1] == h[1] && sig[2] == h[2] && sig[3] == h[3]);
    assert(sig.skip(4)[0] == h[4] && sig.skip(4)[1] == h[5] && sig.skip(4)[2] == h[6]
        && sig.skip(4)[3] == h[7]);
    assert(sig.skip(8)[0] == h[8] && sig.skip(8)[1] == h[9] && sig.skip(8)[2] == h[10]
        && sig.skip(8)[3] == h[11]);
}

/// The signature of `buf`: computed by `fast_rsync` with the given options.
/// Every signature computed with valid options is one that the other side
/// can compute deltas against.
pub fn signature_of(buf: &[u8], options: SignatureOptions) -> (sig: Vec<u8>)
    requires
        options.valid(),
    ensures
        sig@ == fast_rsync_signature(buf@, options.block_size, options.crypto_hash_size),
        signature_diffable(sig@),
        signature_block_size(sig@) == options.block_size,
        signature_hash_size(sig@) == options.crypto_hash_size,
{
    let sig = signature_calculate(buf, options.block_size, options.crypto_hash_size);
    proof {
        lemma_header_diffable(sig@, options.block_size, options.crypto_hash_size);
    }
    sig
}

/// Decodes four big-endian bytes of `b` from `at`.
fn read_be_u32(b: &[u8], at: usize) -> (v: u32)
    requires
        at + 4 <= b@.len(),
    ensures
        v == be_value(b@.skip(at as int)),
{
    let v: u32 = (b[at] as u32) * 0x100_0000 + (b[at + 1] as u32) * 0x1_0000 + (b[at + 2] as u32)
        * 0x100 + (b[at + 3] as u32);
    v
}

/// Whether a delta can be computed against `signature`: whether `fast_rsync`
/// reads it as a signature, and it is an MD4 one with a positive block size
/// and at most sixteen hash bytes per block.
pub fn is_diffable_signature(signature: &[u8]) -> (b: bool)
    ensures
        b == signature_diffable(signature@),
{
    if signature.len() < 12 {
        return false;
    }
    let magic = read_be_u32(signature, 0);
    let block_size = read_be_u32(signature, 4);
    let hash_size = read_be_u32(signature, 8);
    if magic != 0x72730136u32 || block_size == 0 || hash_size > 16 {
        return false;
    }
    match signature_deserialize(vstd::slice::slice_to_vec(signature)) {
        Ok(_) => true,
        Err(_) => false,
    }
}

/// `base` patched with `delta`, as `fast_rsync` applies it; an error where
/// it rejects the delta.
pub fn apply_delta(base: &[u8], delta: &[u8]) -> (res: Result<Vec<u8>, RsyncError>)
    ensures
        match fast_rsync_patched(base@, delta@) {
            Some(out) => res is Ok && res->Ok_0@ == out,
            None => res == Err::<Vec<u8>, RsyncError>(RsyncError::Apply),
        },
{
    match patch_apply(base, delta) {
        Ok(out) => Ok(out),
        Err(_) => Err(RsyncError::Apply),
    }
}

} // verus!
