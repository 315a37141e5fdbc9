use bytes::Bytes;
use vstd::prelude::*;

verus! {

#[verifier::external_type_specification]
#[verifier::external_body]
pub struct ExBytes(Bytes);

/// The bytes that a `Bytes` buffer holds.
pub uninterp spec fn payload_of(b: Bytes) -> Seq<u8>;

/// Relies on `<bytes::Bytes as AsRef<[u8]>>::as_ref`: the slice it returns
/// is the buffer's contents.
#[verifier::external_body]
pub(crate) fn payload_bytes(b: &Bytes) -> (r: &[u8])
    ensures
        r@ == payload_of(*b),
{
    b.as_ref()
}

} // verus!
