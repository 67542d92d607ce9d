//! The output record produced for each usable certificate.

use vstd::prelude::*;

verus! {

/// The mathematical content of one certificate record.
pub ghost struct RecordView {
    pub signature_algorithm: Seq<char>,
    pub public_key_primary: Seq<u8>,
    pub public_key_secondary: Seq<u8>,
    pub issuing_country: Seq<char>,
    pub not_before: int,
    pub not_after: int,
    pub key_size: nat,
}

/// One record per certificate whose key was classified as RSA or EC and
/// whose required fields were all extractable.
///
/// For an RSA key the primary bytes are the modulus in canonical
/// big-endian form and the secondary bytes are the public exponent; for an
/// EC key they are the raw key-point bytes and the encoded curve
/// parameters. Validity bounds are Unix timestamps in seconds.
#[derive(Debug)]
pub struct CertificateRecord {
    pub signature_algorithm: String,
    pub public_key_primary: Vec<u8>,
    pub public_key_secondary: Vec<u8>,
    pub issuing_country: String,
    pub not_before: i64,
    pub not_after: i64,
    pub key_size: usize,
}

impl View for CertificateRecord {
    type V = RecordView;

    open spec fn view(&self) -> RecordView {
        RecordView {
            signature_algorithm: self.signature_algorithm@,
            public_key_primary: self.public_key_primary@,
            public_key_secondary: self.public_key_secondary@,
            issuing_country: self.issuing_country@,
            not_before: self.not_before as int,
            not_after: self.not_after as int,
            key_size: self.key_size as nat,
        }
    }
}

/// The views of a sequence of records, element by element.
pub open spec fn views_of(s: Seq<CertificateRecord>) -> Seq<RecordView> {
    s.map_values(|r: CertificateRecord| r@)
}

/// The one pipeline-wide failure: the input yielded no usable certificate.
#[derive(Debug)]
pub enum MasterlistError {
    NoValidCertificates,
}

impl MasterlistError {
    /// The user-facing description of the condition.
    pub fn message(&self) -> (r: &'static str)
        ensures
            r@ == "No valid certificates found"@,
    {
        "No valid certificates found"
    }
}

} // verus!
