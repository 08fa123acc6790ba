//! The digest engine: one streaming update/finalize state over the closed
//! set of supported algorithms.
//!
//! The five hashers of the outside crates are held behind opaque wrapper
//! structs. What a hasher has absorbed so far, and what digest a byte
//! sequence maps to, are given names that the trusted wrappers' contracts
//! speak of; everything built on top is verified against those names.

use vstd::prelude::*;

use crate::algorithm::Algorithm;

use digest::Digest;

verus! {

/// The bytes an MD5 hasher has absorbed so far, in order.
pub uninterp spec fn md5_absorbed(h: Md5Hasher) -> Seq<u8>;

/// The bytes a SHA-1 hasher has absorbed so far, in order.
pub uninterp spec fn sha1_absorbed(h: Sha1Hasher) -> Seq<u8>;

/// The bytes a SHA-256 hasher has absorbed so far, in order.
pub uninterp spec fn sha256_absorbed(h: Sha256Hasher) -> Seq<u8>;

/// The bytes a SHA-384 hasher has absorbed so far, in order.
pub uninterp spec fn sha384_absorbed(h: Sha384Hasher) -> Seq<u8>;

/// The bytes a SHA-512 hasher has absorbed so far, in order.
pub uninterp spec fn sha512_absorbed(h: Sha512Hasher) -> Seq<u8>;

/// The MD5 digest of a byte sequence: a function of the bytes alone.
pub uninterp spec fn md5_digest(data: Seq<u8>) -> Seq<u8>;

/// The SHA-1 digest of a byte sequence: a function of the bytes alone.
pub uninterp spec fn sha1_digest(data: Seq<u8>) -> Seq<u8>;

/// The SHA-256 digest of a byte sequence: a function of the bytes alone.
pub uninterp spec fn sha256_digest(data: Seq<u8>) -> Seq<u8>;

/// The SHA-384 digest of a byte sequence: a function of the bytes alone.
pub uninterp spec fn sha384_digest(data: Seq<u8>) -> Seq<u8>;

/// The SHA-512 digest of a byte sequence: a function of the bytes alone.
pub uninterp spec fn sha512_digest(data: Seq<u8>) -> Seq<u8>;

/// Holds an `md5::Md5`; opaque because that type is an alias for a deeply
/// generic wrapper that cannot be declared here.
#[verifier::external_body]
pub struct Md5Hasher {
    inner: md5::Md5,
}

/// Holds a `sha1::Sha1`; opaque for the same reason as `Md5Hasher`.
#[verifier::external_body]
pub struct Sha1Hasher {
    inner: sha1::Sha1,
}

/// Holds a `sha2::Sha256`; opaque for the same reason as `Md5Hasher`.
#[verifier::external_body]
pub struct Sha256Hasher {
    inner: sha2::Sha256,
}

/// Holds a `sha2::Sha384`; opaque for the same reason as `Md5Hasher`.
#[verifier::external_body]
pub struct Sha384Hasher {
    inner: sha2::Sha384,
}

/// Holds a `sha2::Sha512`; opaque for the same reason as `Md5Hasher`.
#[verifier::external_body]
pub struct Sha512Hasher {
    inner: sha2::Sha512,
}

/// Relies on `md5::Md5::new` (`digest::Digest::new`): a fresh hasher has
/// absorbed no bytes.
#[verifier::external_body]
fn md5_new() -> (h: Md5Hasher)
    ensures
        md5_absorbed(h) == Seq::<u8>::empty(),
{
    Md5Hasher { inner: md5::Md5::new() }
}

/// Relies on `digest::Digest::update` for `md5::Md5`: absorbs the given
/// bytes after everything absorbed before.
#[verifier::external_body]
fn md5_update(h: &mut Md5Hasher, data: &[u8])
    ensures
        md5_absorbed(*final(h)) == md5_absorbed(*old(h)) + data@,
{
    h.inner.update(data);
}

/// Relies on `digest::Digest::finalize` for `md5::Md5`: the 16-byte MD5
/// digest of exactly the absorbed bytes.
#[verifier::external_body]
fn md5_finalize(h: Md5Hasher) -> (r: Vec<u8>)
    ensures
        r@ == md5_digest(md5_absorbed(h)),
        r@.len() == 16,
{
    h.inner.finalize().to_vec()
}

/// Relies on `sha1::Sha1::new` (`digest::Digest::new`): a fresh hasher has
/// absorbed no bytes.
#[verifier::external_body]
fn sha1_new() -> (h: Sha1Hasher)
    ensures
        sha1_absorbed(h) == Seq::<u8>::empty(),
{
    Sha1Hasher { inner: sha1::Sha1::new() }
}

/// Relies on `digest::Digest::update` for `sha1::Sha1`: absorbs the given
/// bytes after everything absorbed before.
#[verifier::external_body]
fn sha1_update(h: &mut Sha1Hasher, data: &[u8])
    ensures
        sha1_absorbed(*final(h)) == sha1_absorbed(*old(h)) + data@,
{
    h.inner.update(data);
}

/// Relies on `digest::Digest::finalize` for `sha1::Sha1`: the 20-byte
/// SHA-1 digest of exactly the absorbed bytes.
#[verifier::external_body]
fn sha1_finalize(h: Sha1Hasher) -> (r: Vec<u8>)
    ensures
        r@ == sha1_digest(sha1_absorbed(h)),
        r@.len() == 20,
{
    h.inner.finalize().to_vec()
}

/// Relies on `sha2::Sha256::new` (`digest::Digest::new`): a fresh hasher
/// has absorbed no bytes.
#[verifier::external_body]
fn sha256_new() -> (h: Sha256Hasher)
    ensures
        sha256_absorbed(h) == Seq::<u8>::empty(),
{
    Sha256Hasher { inner: sha2::Sha256::new() }
}

/// Relies on `digest::Digest::update` for `sha2::Sha256`: absorbs the
/// given bytes after everything absorbed before.
#[verifier::external_body]
fn sha256_update(h: &mut Sha256Hasher, data: &[u8])
    ensures
        sha256_absorbed(*final(h)) == sha256_absorbed(*old(h)) + data@,
{
    h.inner.update(data);
}

/// Relies on `digest::Digest::finalize` for `sha2::Sha256`: the 32-byte
/// SHA-256 digest of exactly the absorbed bytes.
#[verifier::external_body]
fn sha256_finalize(h: Sha256Hasher) -> (r: Vec<u8>)
    ensures
        r@ == sha256_digest(sha256_absorbed(h)),
        r@.len() == 32,
{
    h.inner.finalize().to_vec()
}

/// Relies on `sha2::Sha384::new` (`digest::Digest::new`): a fresh hasher
/// has absorbed no bytes.
#[verifier::external_body]
fn sha384_new() -> (h: Sha384Hasher)
    ensures
        sha384_absorbed(h) == Seq::<u8>::empty(),
{
    Sha384Hasher { inner: sha2::Sha384::new() }
}

/// Relies on `digest::Digest::update` for `sha2::Sha384`: absorbs the
/// given bytes after everything absorbed before.
#[verifier::external_body]
fn sha384_update(h: &mut Sha384Hasher, data: &[u8])
    ensures
        sha384_absorbed(*final(h)) == sha384_absorbed(*old(h)) + data@,
{
    h.inner.update(data);
}

/// Relies on `digest::Digest::finalize` for `sha2::Sha384`: the 48-byte
/// SHA-384 digest of exactly the absorbed bytes.
#[verifier::external_body]
fn sha384_finalize(h: Sha384Hasher) -> (r: Vec<u8>)
    ensures
        r@ == sha384_digest(sha384_absorbed(h)),
        r@.len() == 48,
{
    h.inner.finalize().to_vec()
}

/// Relies on `sha2::Sha512::new` (`digest::Digest::new`): a fresh hasher
/// has absorbed no bytes.
#[verifier::external_body]
fn sha512_new() -> (h: Sha512Hasher)
    ensures
        sha512_absorbed(h) == Seq::<u8>::empty(),
{
    Sha512Hasher { inner: sha2::Sha512::new() }
}

/// Relies on `digest::Digest::update` for `sha2::Sha512`: absorbs the
/// given bytes after everything absorbed before.
#[verifier::external_body]
fn sha512_update(h: &mut Sha512Hasher, data: &[u8])
    ensures
        sha512_absorbed(*final(h)) == sha512_absorbed(*old(h)) + data@,
{
    h.inner.update(data);
}

/// Relies on `digest::Digest::finalize` for `sha2::Sha512`: the 64-byte
/// SHA-512 digest of exactly the absorbed bytes.
#[verifier::external_body]
fn sha512_finalize(h: Sha512Hasher) -> (r: Vec<u8>)
    ensures
        r@ == sha512_digest(sha512_absorbed(h)),
        r@.len() == 64,
{
    h.inner.finalize().to_vec()
}

/// The digest of `data` under `alg`.
pub open spec fn spec_digest(alg: Algorithm, data: Seq<u8>) -> Seq<u8> {
    match alg {
        Algorithm::Md5 => md5_digest(data),
        Algorithm::Sha1 => sha1_digest(data),
        Algorithm::Sha256 => sha256_digest(data),
        Algorithm::Sha384 => sha384_digest(data),
        Algorithm::Sha512 => sha512_digest(data),
    }
}

/// A streaming digest accumulator bound to one algorithm at construction.
///
/// The state is consumed by `finalize` exactly once; updates absorb bytes
/// in order, so the final digest is the digest of the concatenation of
/// every update's bytes.
pub enum DigestState {
    Md5(Md5Hasher),
    Sha1(Sha1Hasher),
    Sha256(Sha256Hasher),
    Sha384(Sha384Hasher),
    Sha512(Sha512Hasher),
}

impl DigestState {
    /// The algorithm this state was created with.
    pub open spec fn algorithm(self) -> Algorithm {
        match self {
            DigestState::Md5(_) => Algorithm::Md5,
            DigestState::Sha1(_) => Algorithm::Sha1,
            DigestState::Sha256(_) => Algorithm::Sha256,
            DigestState::Sha384(_) => Algorithm::Sha384,
            DigestState::Sha512(_) => Algorithm::Sha512,
        }
    }

    /// The bytes absorbed so far, in the order they were fed.
    pub open spec fn absorbed(self) -> Seq<u8> {
        match self {
            DigestState::Md5(h) => md5_absorbed(h),
            DigestState::Sha1(h) => sha1_absorbed(h),
            DigestState::Sha256(h) => sha256_absorbed(h),
            DigestState::Sha384(h) => sha384_absorbed(h),
            DigestState::Sha512(h) => sha512_absorbed(h),
        }
    }

    /// Create a fresh state for `alg` that has absorbed nothing.
    pub fn create(alg: Algorithm) -> (r: DigestState)
        ensures
            r.algorithm() == alg,
            r.absorbed() == Seq::<u8>::empty(),
    {
        match alg {
            Algorithm::Md5 => DigestState::Md5(md5_new()),
            Algorithm::Sha1 => DigestState::Sha1(sha1_new()),
            Algorithm::Sha256 => DigestState::Sha256(sha256_new()),
            Algorithm::Sha384 => DigestState::Sha384(sha384_new()),
            Algorithm::Sha512 => DigestState::Sha512(sha512_new()),
        }
    }

    /// Absorb `data` after everything absorbed before.
    pub fn update(self, data: &[u8]) -> (r: DigestState)
        ensures
            r.algorithm() == self.algorithm(),
            r.absorbed() == self.absorbed() + data@,
    {
        match self {
            DigestState::Md5(mut h) => {
                md5_update(&mut h, data);
                DigestState::Md5(h)
            },
            DigestState::Sha1(mut h) => {
                sha1_update(&mut h, data);
                DigestState::Sha1(h)
            },
            DigestState::Sha256(mut h) => {
                sha256_update(&mut h, data);
                DigestState::Sha256(h)
            },
            DigestState::Sha384(mut h) => {
                sha384_update(&mut h, data);
                DigestState::Sha384(h)
            },
            DigestState::Sha512(mut h) => {
                sha512_update(&mut h, data);
                DigestState::Sha512(h)
            },
        }
    }

    /// Consume the state; the raw digest of exactly the absorbed bytes,
    /// with the algorithm's fixed output length.
    pub fn finalize(self) -> (r: Vec<u8>)
        ensures
            r@ == spec_digest(self.algorithm(), self.absorbed()),
            r@.len() == self.algorithm().spec_byte_len(),
    {
        match self {
            DigestState::Md5(h) => md5_finalize(h),
            DigestState::Sha1(h) => sha1_finalize(h),
            DigestState::Sha256(h) => sha256_finalize(h),
            DigestState::Sha384(h) => sha384_finalize(h),
            DigestState::Sha512(h) => sha512_finalize(h),
        }
    }
}

} // verus!
