//! Splits a byte stream of concatenated PEM-armored certificates into
//! decoded DER frames.

use vstd::prelude::*;

verus! {

/// What one PEM frame at the front of the input decodes to: the DER
/// contents of the frame and the remaining input, or `None` where the
/// input starts with no well-formed frame.
pub uninterp spec fn pem_frame_of(data: Seq<u8>) -> Option<(Seq<u8>, Seq<u8>)>;

/// Relies on `x509_parser::pem::parse_x509_pem`: splits one PEM-armored
/// frame off the front of the input (skipping any lines before the
/// armor), yielding its base64-decoded DER contents and the rest of the
/// input; fails on absent or malformed armor. A successful parse
/// consumes at least the armor lines, so the rest is strictly shorter
/// than the input.
#[verifier::external_body]
pub(crate) fn read_pem_frame(data: &[u8]) -> (r: Option<(Vec<u8>, Vec<u8>)>)
    ensures
        r is Some <==> pem_frame_of(data@) is Some,
        r is Some ==> ((r->Some_0).0@, (r->Some_0).1@) == pem_frame_of(data@)->Some_0,
        r is Some ==> (r->Some_0).1@.len() < data@.len(),
{
    match x509_parser::pem::parse_x509_pem(data) {
        Ok((rest, pem)) => Some((pem.contents, rest.to_vec())),
        Err(_) => None,
    }
}

} // verus!
