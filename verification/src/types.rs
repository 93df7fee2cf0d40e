//! The registry's plain values: fingerprints, identities, and the error
//! kinds a mutating call can surface.

use vstd::prelude::*;

verus! {

/// Width in bytes of a content fingerprint (a strong digest supplied by
/// the caller; the registry imposes no structure on its contents).
pub const FINGERPRINT_WIDTH: usize = 32;

/// Width in bytes of a principal identity (an opaque account value
/// supplied by the execution environment, never by the caller).
pub const IDENTITY_WIDTH: usize = 32;

/// A fixed-width content digest, the lookup key of a binding.
#[derive(Clone, Copy, Debug, PartialEq, Eq)]
pub struct Fingerprint {
    bytes: [u8; FINGERPRINT_WIDTH],
}

/// An opaque principal identifier, the value of a binding.
#[derive(Clone, Copy, Debug, PartialEq, Eq)]
pub struct Identity {
    bytes: [u8; IDENTITY_WIDTH],
}

/// Why a mutating call failed. The registry's own logic has no failure
/// path: both kinds report that an external collaborator fell short.
#[derive(Clone, Copy, Debug, PartialEq, Eq)]
pub enum RegistryError {
    /// The persistence substrate could not be read or written. The
    /// in-memory store never raises this; hosts that persist bindings
    /// elsewhere surface it through this kind.
    StorageUnavailable,
    /// The environment could not supply a trusted caller identity for a
    /// mutating call, which must then fail rather than proceed.
    IdentityUnresolved,
}

impl View for Fingerprint {
    type V = Seq<u8>;

    closed spec fn view(&self) -> Seq<u8> {
        self.bytes@
    }
}

impl View for Identity {
    type V = Seq<u8>;

    closed spec fn view(&self) -> Seq<u8> {
        self.bytes@
    }
}

impl DeepView for Identity {
    type V = Seq<u8>;

    open spec fn deep_view(&self) -> Seq<u8> {
        self.view()
    }
}

/// Byte-for-byte comparison of two fixed-width values.
fn bytes_equal<const N: usize>(a: &[u8; N], b: &[u8; N]) -> (r: bool)
    ensures
        r <==> a@ == b@,
{
    let mut i: usize = 0;
    while i < N
        invariant
            i <= N,
            forall|j: int| 0 <= j < i ==> a@[j] == b@[j],
        decreases N - i,
    {
        if a[i] != b[i] {
            return false;
        }
        i = i + 1;
    }
    proof {
        assert(a@ =~= b@);
    }
    true
}

impl Fingerprint {
    /// Wraps a caller-supplied digest.
    pub fn new(bytes: [u8; FINGERPRINT_WIDTH]) -> (r: Fingerprint)
        ensures
            r@ == bytes@,
    {
        Fingerprint { bytes }
    }

    /// Whether two fingerprints hold the same digest.
    pub fn matches(&self, other: &Fingerprint) -> (r: bool)
        ensures
            r <==> self@ == other@,
    {
        bytes_equal(&self.bytes, &other.bytes)
    }

    /// The digest as plain bytes.
    pub fn to_bytes(&self) -> (r: [u8; FINGERPRINT_WIDTH])
        ensures
            r@ == self@,
    {
        self.bytes
    }
}

impl Identity {
    /// Wraps an environment-resolved principal identifier.
    pub fn new(bytes: [u8; IDENTITY_WIDTH]) -> (r: Identity)
        ensures
            r@ == bytes@,
    {
        Identity { bytes }
    }

    /// Whether two identities name the same principal.
    pub fn matches(&self, other: &Identity) -> (r: bool)
        ensures
            r <==> self@ == other@,
    {
        bytes_equal(&self.bytes, &other.bytes)
    }

    /// The identifier as plain bytes.
    pub fn to_bytes(&self) -> (r: [u8; IDENTITY_WIDTH])
        ensures
            r@ == self@,
    {
        self.bytes
    }
}

} // verus!
