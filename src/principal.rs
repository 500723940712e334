//! Identities of programs and users on the compute fabric.
use vstd::prelude::*;

verus! {

/// A copy of `v`.
pub fn copy_bytes(v: &Vec<u8>) -> (r: Vec<u8>)
    ensures
        r@ == v@,
{
    let mut r: Vec<u8> = Vec::new();
    let mut i: usize = 0;
    while i < v.len()
        invariant
            i <= v@.len(),
            r@ == v@.subrange(0, i as int),
        decreases v@.len() - i,
    {
        r.push(v[i]);
        i = i + 1;
    }
    assert(r@ == v@);
    r
}

/// The most bytes an identity holds.
pub const MAX_PRINCIPAL_BYTES: usize = 29;

/// The textual form of the identity with these bytes.
pub uninterp spec fn principal_text(bytes: Seq<u8>) -> Seq<char>;

/// The bytes of the identity that this text denotes, if it denotes one.
pub uninterp spec fn principal_of_text(text: Seq<char>) -> Option<Seq<u8>>;

/// Relies on `candid::Principal::to_text`: the checksummed base32 text of
/// the bytes, which depends on the bytes alone. `from_slice` panics beyond
/// 29 bytes, which `requires` leaves out.
#[verifier::external_body]
fn text_of(bytes: &Vec<u8>) -> (r: String)
    requires
        bytes@.len() <= MAX_PRINCIPAL_BYTES,
    ensures
        r@ == principal_text(bytes@),
{
    candid::Principal::from_slice(bytes.as_slice()).to_text()
}

/// Relies on `candid::Principal::from_text`: it accepts exactly the
/// well-formed texts, and the bytes it gives back are at most 29.
#[verifier::external_body]
fn bytes_of_text(text: &str) -> (r: Option<Vec<u8>>)
    ensures
        match r {
            Some(b) => principal_of_text(text@) == Some(b@) && b@.len() <= MAX_PRINCIPAL_BYTES,
            None => principal_of_text(text@) is None,
        },
{
    match candid::Principal::from_text(text) {
        Ok(p) => Some(p.as_slice().to_vec()),
        Err(_) => None,
    }
}

/// An identity on the fabric, held as its raw bytes (at most 29).
#[derive(Debug, PartialEq, Eq, Hash, PartialOrd, Ord)]
pub struct PrincipalId {
    bytes: Vec<u8>,
}

impl View for PrincipalId {
    type V = Seq<u8>;

    closed spec fn view(&self) -> Seq<u8> {
        self.bytes@
    }
}

impl PrincipalId {
    #[verifier::type_invariant]
    spec fn inv(&self) -> bool {
        self.bytes@.len() <= MAX_PRINCIPAL_BYTES
    }

    /// The identity with these bytes; `None` beyond 29 bytes.
    pub fn from_bytes(bytes: Vec<u8>) -> (r: Option<PrincipalId>)
        ensures
            r is Some <==> bytes@.len() <= MAX_PRINCIPAL_BYTES,
            r is Some ==> r->Some_0@ == bytes@,
    {
        if bytes.len() > MAX_PRINCIPAL_BYTES {
            return None;
        }
        Some(PrincipalId { bytes })
    }

    /// The identity that `text` denotes; `None` when it denotes none.
    pub fn from_text(text: &str) -> (r: Option<PrincipalId>)
        ensures
            match r {
                Some(p) => principal_of_text(text@) == Some(p@),
                None => principal_of_text(text@) is None,
            },
    {
        match bytes_of_text(text) {
            Some(bytes) => Some(PrincipalId { bytes }),
            None => None,
        }
    }

    /// The textual form of the identity.
    pub fn to_text(&self) -> (r: String)
        ensures
            r@ == principal_text(self@),
    {
        proof {
            use_type_invariant(self);
        }
        text_of(&self.bytes)
    }

    /// The anonymous identity.
    pub fn anonymous() -> (r: PrincipalId)
        ensures
            r@ == seq![4u8],
    {
        let mut bytes: Vec<u8> = Vec::new();
        bytes.push(4);
        PrincipalId { bytes }
    }

    pub fn as_bytes(&self) -> (r: Vec<u8>)
        ensures
            r@ == self@,
            r@.len() <= MAX_PRINCIPAL_BYTES,
    {
        proof {
            use_type_invariant(self);
        }
        copy_bytes(&self.bytes)
    }

    /// Copies the identity.
    pub fn duplicate(&self) -> (r: PrincipalId)
        ensures
            r@ == self@,
    {
        proof {
            use_type_invariant(self);
        }
        PrincipalId { bytes: copy_bytes(&self.bytes) }
    }

    /// Whether two identities are the same.
    pub fn same_as(&self, other: &PrincipalId) -> (r: bool)
        ensures
            r == (self@ == other@),
    {
        if self.bytes.len() != other.bytes.len() {
            return false;
        }
        let mut i: usize = 0;
        while i < self.bytes.len()
            invariant
                i <= self.bytes@.len(),
                self.bytes@.len() == other.bytes@.len(),
                self.bytes@.subrange(0, i as int) == other.bytes@.subrange(0, i as int),
            decreases self.bytes@.len() - i,
        {
            if self.bytes[i] != other.bytes[i] {
                assert(self.bytes@[i as int] != other.bytes@[i as int]);
                return false;
            }
            assert(self.bytes@.subrange(0, i + 1) =~= self.bytes@.subrange(0, i as int).push(self.bytes@[i as int]));
            assert(other.bytes@.subrange(0, i + 1) =~= other.bytes@.subrange(0, i as int).push(other.bytes@[i as int]));
            i = i + 1;
        }
        assert(self.bytes@ =~= self.bytes@.subrange(0, i as int));
        assert(other.bytes@ =~= other.bytes@.subrange(0, i as int));
        true
    }
}

} // verus!
