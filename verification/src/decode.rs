//! Decodes one DER-encoded certificate into the plain values the pipeline
//! reads: issuer country, validity window, signature-algorithm identifier,
//! and the subject public key tagged by algorithm family.

use vstd::prelude::*;
use x509_parser::prelude::FromDer;
use x509_parser::public_key::PublicKey;
use crate::canonical::lemma_trimmed_empty_iff_zero;
use crate::canonical::lemma_trimmed_has_no_leading_zero;
use crate::canonical::spec_trim_leading_zeros;
use crate::canonical::trim_leading_zeros;
use crate::oid::get_oid_description;
use crate::oid::spec_oid_description;
use crate::record::CertificateRecord;
use crate::record::RecordView;

verus! {

/// The mathematical content of the metadata read from a certificate.
pub ghost struct CertMetaView {
    pub country: Option<Seq<char>>,
    pub not_before: int,
    pub not_after: int,
    pub sig_oid: Seq<char>,
}

/// Certificate metadata: the first country attribute of the issuer name
/// (if any), the validity window as Unix timestamps, and the certificate's
/// signature-algorithm identifier as a dotted-decimal string.
pub struct CertMeta {
    pub country: Option<String>,
    pub not_before: i64,
    pub not_after: i64,
    pub sig_oid: String,
}

impl View for CertMeta {
    type V = CertMetaView;

    open spec fn view(&self) -> CertMetaView {
        CertMetaView {
            country: match self.country {
                Option::Some(c) => Option::Some(c@),
                Option::None => Option::None,
            },
            not_before: self.not_before as int,
            not_after: self.not_after as int,
            sig_oid: self.sig_oid@,
        }
    }
}

/// The mathematical content of a subject public key, tagged by family.
pub ghost enum KeyView {
    Rsa { modulus: Seq<u8>, exponent: Seq<u8>, key_size: nat },
    Ec { point: Seq<u8>, key_size: nat },
    Unsupported,
}

/// A subject public key tagged by algorithm family: the two supported
/// families carry their numeric components and reported bit length; any
/// other family short-circuits record emission.
pub enum RawKey {
    Rsa { modulus: Vec<u8>, exponent: Vec<u8>, key_size: usize },
    Ec { point: Vec<u8>, key_size: usize },
    Unsupported,
}

impl View for RawKey {
    type V = KeyView;

    open spec fn view(&self) -> KeyView {
        match self {
            RawKey::Rsa { modulus, exponent, key_size } => KeyView::Rsa {
                modulus: modulus@,
                exponent: exponent@,
                key_size: *key_size as nat,
            },
            RawKey::Ec { point, key_size } => KeyView::Ec {
                point: point@,
                key_size: *key_size as nat,
            },
            RawKey::Unsupported => KeyView::Unsupported,
        }
    }
}

/// The mathematical content of a subject-public-key-info field.
pub ghost struct SpkiView {
    pub key: KeyView,
    pub params: Option<Seq<u8>>,
}

/// A subject-public-key-info field: the key tagged by family, and the raw
/// encoded bytes of the key algorithm's parameters field, if present.
pub struct RawSpki {
    pub key: RawKey,
    pub params: Option<Vec<u8>>,
}

impl View for RawSpki {
    type V = SpkiView;

    open spec fn view(&self) -> SpkiView {
        SpkiView {
            key: self.key@,
            params: match self.params {
                Option::Some(p) => Option::Some(p@),
                Option::None => Option::None,
            },
        }
    }
}

/// The metadata a well-formed DER certificate decodes to, or `None` where
/// the bytes do not parse as a certificate.
pub uninterp spec fn cert_meta_of(der: Seq<u8>) -> Option<CertMetaView>;

/// The subject-public-key-info a well-formed DER certificate decodes to,
/// or `None` where the bytes do not parse as a certificate.
pub uninterp spec fn cert_spki_of(der: Seq<u8>) -> Option<SpkiView>;

/// Relies on `x509_parser`: `X509Certificate::from_der` to parse the
/// certificate, `X509Name::iter_country` and
/// `AttributeTypeAndValue::as_str` for the first issuer country
/// attribute, `ASN1Time::timestamp` for the validity bounds, and
/// `Oid::to_id_string` for the dotted-decimal signature-algorithm
/// identifier. The result depends on the bytes alone.
#[verifier::external_body]
fn decode_cert_meta(der: &[u8]) -> (r: Option<CertMeta>)
    ensures
        r is Some <==> cert_meta_of(der@) is Some,
        r is Some ==> (r->Some_0)@ == cert_meta_of(der@)->Some_0,
{
    let cert = match x509_parser::certificate::X509Certificate::from_der(der) {
        Ok((_, c)) => c,
        Err(_) => return None,
    };
    let country = cert.issuer().iter_country().next().and_then(
        |a| a.as_str().ok().map(|s| s.to_string()),
    );
    Some(CertMeta {
        country,
        not_before: cert.validity().not_before.timestamp(),
        not_after: cert.validity().not_after.timestamp(),
        sig_oid: cert.signature_algorithm.algorithm.to_id_string(),
    })
}

/// Relies on `x509_parser`: `X509Certificate::from_der` to parse the
/// certificate, `SubjectPublicKeyInfo::parsed` to classify the subject
/// public key as RSA (modulus, exponent), EC (raw point bytes), or
/// unsupported, `key_size` of either key type for the reported bit
/// length, and `AlgorithmIdentifier::parameters` with `Any::as_bytes`
/// for the raw bytes of the key algorithm's parameters field. The
/// result depends on the bytes alone.
#[verifier::external_body]
fn decode_cert_spki(der: &[u8]) -> (r: Option<RawSpki>)
    ensures
        r is Some <==> cert_spki_of(der@) is Some,
        r is Some ==> (r->Some_0)@ == cert_spki_of(der@)->Some_0,
{
    let cert = match x509_parser::certificate::X509Certificate::from_der(der) {
        Ok((_, c)) => c,
        Err(_) => return None,
    };
    let params = cert.subject_pki.algorithm.parameters().map(|p| p.as_bytes().to_vec());
    let key = match cert.public_key().parsed() {
        Ok(PublicKey::RSA(k)) => RawKey::Rsa { modulus: k.modulus.to_vec(), exponent: k.exponent.to_vec(), key_size: k.key_size() },
        Ok(PublicKey::EC(k)) => RawKey::Ec { point: k.data().to_vec(), key_size: k.key_size() },
        _ => RawKey::Unsupported,
    };
    Some(RawSpki { key, params })
}

/// The issuer country, with the sentinel for an absent attribute.
pub open spec fn spec_country_or_unknown(c: Option<Seq<char>>) -> Seq<char> {
    match c {
        Option::Some(s) => s,
        Option::None => "Unknown"@,
    }
}

/// The record a DER buffer yields: `Some` exactly where the buffer parses
/// as a certificate whose key is RSA, or EC with the key algorithm's
/// parameters field present; `None` where the buffer is not a certificate,
/// the key family is unsupported, or an EC key lacks parameters.
pub open spec fn spec_record_of(der: Seq<u8>) -> Option<RecordView> {
    match (cert_meta_of(der), cert_spki_of(der)) {
        (Option::Some(m), Option::Some(s)) => match s.key {
            KeyView::Rsa { modulus, exponent, key_size } => Option::Some(RecordView {
                signature_algorithm: spec_oid_description(m.sig_oid),
                public_key_primary: spec_trim_leading_zeros(modulus),
                public_key_secondary: exponent,
                issuing_country: spec_country_or_unknown(m.country),
                not_before: m.not_before,
                not_after: m.not_after,
                key_size: key_size,
            }),
            KeyView::Ec { point, key_size } => match s.params {
                Option::Some(p) => Option::Some(RecordView {
                    signature_algorithm: spec_oid_description(m.sig_oid),
                    public_key_primary: point,
                    public_key_secondary: p,
                    issuing_country: spec_country_or_unknown(m.country),
                    not_before: m.not_before,
                    not_after: m.not_after,
                    key_size: key_size,
                }),
                Option::None => Option::None,
            },
            KeyView::Unsupported => Option::None,
        },
        _ => Option::None,
    }
}

/// Decodes one DER buffer to its output record: extracts the metadata and
/// key, canonicalizes the key material, and resolves the signature
/// algorithm. Yields `None` exactly where `spec_record_of` does.
pub fn record_of_der(der: &[u8]) -> (r: Option<CertificateRecord>)
    ensures
        r is Some <==> spec_record_of(der@) is Some,
        r is Some ==> (r->Some_0)@ == spec_record_of(der@)->Some_0,
{
    let meta = match decode_cert_meta(der) {
        Some(m) => m,
        None => return None,
    };
    let spki = match decode_cert_spki(der) {
        Some(s) => s,
        None => return None,
    };
    let signature_algorithm = get_oid_description(meta.sig_oid.as_str());
    let issuing_country = match meta.country {
        Some(c) => c,
        None => "Unknown".to_owned(),
    };
    match spki.key {
        RawKey::Rsa { modulus, exponent, key_size } => Some(CertificateRecord {
            signature_algorithm,
            public_key_primary: trim_leading_zeros(&modulus),
            public_key_secondary: exponent,
            issuing_country,
            not_before: meta.not_before,
            not_after: meta.not_after,
            key_size,
        }),
        RawKey::Ec { point, key_size } => match spki.params {
            Some(p) => Some(CertificateRecord {
                signature_algorithm,
                public_key_primary: point,
                public_key_secondary: p,
                issuing_country,
                not_before: meta.not_before,
                not_after: meta.not_after,
                key_size,
            }),
            None => None,
        },
        RawKey::Unsupported => None,
    }
}


/// Every record of an RSA certificate carries the modulus in canonical
/// big-endian form: a certificate whose key parses as RSA always yields a
/// record, its primary key bytes are the trimmed modulus, they never
/// carry a leading zero byte, and they are empty exactly when the modulus
/// value is zero.
pub proof fn lemma_rsa_record_canonical(
    der: Seq<u8>,
    modulus: Seq<u8>,
    exponent: Seq<u8>,
    key_size: nat,
    params: Option<Seq<u8>>,
)
    requires
        cert_meta_of(der) is Some,
        cert_spki_of(der) == Option::Some(
            SpkiView { key: KeyView::Rsa { modulus, exponent, key_size }, params },
        ),
    ensures
        spec_record_of(der) is Some,
        spec_record_of(der)->Some_0.public_key_primary == spec_trim_leading_zeros(modulus),
        spec_record_of(der)->Some_0.public_key_primary.len() > 0
            ==> spec_record_of(der)->Some_0.public_key_primary[0] != 0,
        spec_record_of(der)->Some_0.public_key_primary.len() == 0 <==> (forall|k: int|
            0 <= k < modulus.len() ==> modulus[k] == 0),
{
    lemma_trimmed_has_no_leading_zero(modulus);
    lemma_trimmed_empty_iff_zero(modulus);
}

} // verus!
