use vstd::prelude::*;

verus! {

/// The type identifier carried by every header envelope.
pub const LCP_HEADER_TYPE_URL: &'static str = "/ibc.lcp.Header";

/// Length in bytes of a signer address.
pub const ADDRESS_LEN: usize = 20;

/// Length in bytes of a state identifier.
pub const STATE_ID_LEN: usize = 32;

/// A position in a source chain: revision number, then height within it.
#[derive(Clone, Copy, Debug, PartialEq, Eq, Structural)]
pub struct Height {
    pub revision_number: u64,
    pub revision_height: u64,
}

impl Height {
    /// Lexicographic order: revision number first, then revision height.
    pub open spec fn spec_lt(self, other: Height) -> bool {
        self.revision_number < other.revision_number || (self.revision_number
            == other.revision_number && self.revision_height < other.revision_height)
    }

    pub fn new(revision_number: u64, revision_height: u64) -> (r: Height)
        ensures
            r.revision_number == revision_number,
            r.revision_height == revision_height,
    {
        Height { revision_number, revision_height }
    }

    /// Whether `self` comes strictly before `other`.
    pub fn lt(&self, other: &Height) -> (r: bool)
        ensures
            r == self.spec_lt(*other),
    {
        self.revision_number < other.revision_number || (self.revision_number
            == other.revision_number && self.revision_height < other.revision_height)
    }
}

/// Identifier of a signing key, derived from its public key.
#[derive(Clone, Copy, Debug, PartialEq, Eq)]
pub struct Address(pub [u8; 20]);

/// Content hash of a light client's state at some height.
#[derive(Clone, Copy, Debug, PartialEq, Eq)]
pub struct StateID(pub [u8; 32]);

/// A point in time, as nanoseconds since the Unix epoch.
#[derive(Clone, Copy, Debug, PartialEq, Eq, Structural)]
pub struct Time {
    nanos: u64,
}

impl Time {
    pub closed spec fn spec_nanoseconds(self) -> u64 {
        self.nanos
    }

    /// The time `nanos` nanoseconds after the epoch; fails where that count
    /// does not fit the 64-bit representation.
    pub fn from_nanoseconds(nanos: u128) -> (r: Option<Time>)
        ensures
            r is Some <==> nanos <= u64::MAX,
            r matches Some(t) ==> t.spec_nanoseconds() == nanos,
    {
        if nanos <= u64::MAX as u128 {
            Some(Time { nanos: nanos as u64 })
        } else {
            None
        }
    }

    pub fn nanoseconds(&self) -> (r: u64)
        ensures
            r == self.spec_nanoseconds(),
    {
        self.nanos
    }
}

/// Copies a slice of exactly `N` bytes into an array.
pub(crate) fn array_from_slice<const N: usize>(s: &[u8]) -> (r: Option<[u8; N]>)
    ensures
        r is Some <==> s@.len() == N,
        r matches Some(a) ==> a@ == s@,
{
    if s.len() != N {
        return None;
    }
    let mut a: [u8; N] = [0u8; N];
    let mut i: usize = 0;
    while i < N
        invariant
            i <= N,
            s@.len() == N,
            a@.len() == N,
            forall|j: int| 0 <= j < i ==> a@[j] == s@[j],
        decreases N - i,
    {
        a[i] = s[i];
        i = i + 1;
    }
    assert(a@ =~= s@);
    Some(a)
}

/// Relies on prost-types' `Any`, the type-tagged envelope of protobuf: a
/// struct of two public fields, the type identifier `type_url: String` and the
/// encoded `value: Vec<u8>`, which Verus reads as they are.
#[verifier::external_type_specification]
pub struct ExAny(prost_types::Any);

}
