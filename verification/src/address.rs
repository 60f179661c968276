//! Channel address allocation: a fresh, collision-resistant identifier for
//! one bootstrap session's abstract-namespace endpoint.

use vstd::prelude::*;

verus! {

/// Relies on `uuid::Uuid::new_v4` and `Uuid::into_bytes`: a version-4
/// identifier is drawn from the process's random source and returned as its
/// sixteen raw bytes.  The value depends on that source, so nothing is
/// promised of the bytes beyond their number.
#[verifier::external_body]
fn fresh_identifier_bytes() -> (r: Vec<u8>)
    ensures
        r@.len() == 16,
{
    uuid::Uuid::new_v4().into_bytes().to_vec()
}

/// A unique identifier for a channel address, generated fresh per
/// bootstrap from a 128-bit random identifier.  It never touches the
/// filesystem; the unverified runner binds the abstract-namespace endpoint
/// named by these bytes.
pub struct AddressIdentifier {
    bytes: Vec<u8>,
}

impl AddressIdentifier {
    /// The identifier is well formed when it holds exactly 128 bits.
    pub open spec fn wf(&self) -> bool {
        self.spec_bytes().len() == 16
    }

    /// The raw bytes naming the endpoint.
    pub fn bytes(&self) -> (r: &Vec<u8>)
        ensures
            r@ == self.spec_bytes(),
    {
        &self.bytes
    }

    pub closed spec fn spec_bytes(&self) -> Seq<u8> {
        self.bytes@
    }

}

impl Default for AddressIdentifier {
    /// Allocates a fresh identifier.  No operating-system resource is
    /// consumed until the endpoint is actually bound.
    fn default() -> (r: Self)
        ensures
            r.wf(),
    {
        AddressIdentifier { bytes: fresh_identifier_bytes() }
    }
}

} // verus!
