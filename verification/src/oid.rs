//! Resolves signature-algorithm object identifiers to descriptive names.

use vstd::prelude::*;
use crate::text::str_eq;

verus! {

/// The descriptive name of a signature-algorithm object identifier.
/// Each of the nine known identifiers maps to its fixed name; any other
/// dotted-decimal string passes through verbatim.
pub open spec fn spec_oid_description(oid: Seq<char>) -> Seq<char> {
    if oid == "1.2.840.113549.1.1.5"@ {
        "sha1-with-rsa-signature"@
    } else if oid == "1.2.840.113549.1.1.11"@ {
        "sha256WithRSAEncryption"@
    } else if oid == "1.2.840.113549.1.1.12"@ {
        "sha384WithRSAEncryption"@
    } else if oid == "1.2.840.113549.1.1.13"@ {
        "sha512WithRSAEncryption"@
    } else if oid == "1.2.840.113549.1.1.10"@ {
        "rsassa-pss"@
    } else if oid == "1.2.840.10045.4.1"@ {
        "ecdsa-with-SHA1"@
    } else if oid == "1.2.840.10045.4.3.2"@ {
        "ecdsa-with-SHA256"@
    } else if oid == "1.2.840.10045.4.3.3"@ {
        "ecdsa-with-SHA384"@
    } else if oid == "1.2.840.10045.4.3.4"@ {
        "ecdsa-with-SHA512"@
    } else {
        oid
    }
}

/// Looks a dotted-decimal signature-algorithm identifier up in the fixed
/// table of known algorithms; an unknown identifier is returned unchanged.
pub fn get_oid_description(oid: &str) -> (r: String)
    ensures
        r@ == spec_oid_description(oid@),
{
    if str_eq(oid, "1.2.840.113549.1.1.5") {
        "sha1-with-rsa-signature".to_owned()
    } else if str_eq(oid, "1.2.840.113549.1.1.11") {
        "sha256WithRSAEncryption".to_owned()
    } else if str_eq(oid, "1.2.840.113549.1.1.12") {
        "sha384WithRSAEncryption".to_owned()
    } else if str_eq(oid, "1.2.840.113549.1.1.13") {
        "sha512WithRSAEncryption".to_owned()
    } else if str_eq(oid, "1.2.840.113549.1.1.10") {
        "rsassa-pss".to_owned()
    } else if str_eq(oid, "1.2.840.10045.4.1") {
        "ecdsa-with-SHA1".to_owned()
    } else if str_eq(oid, "1.2.840.10045.4.3.2") {
        "ecdsa-with-SHA256".to_owned()
    } else if str_eq(oid, "1.2.840.10045.4.3.3") {
        "ecdsa-with-SHA384".to_owned()
    } else if str_eq(oid, "1.2.840.10045.4.3.4") {
        "ecdsa-with-SHA512".to_owned()
    } else {
        oid.to_owned()
    }
}

/// An identifier that matches none of the nine known signature algorithms
/// resolves to itself, verbatim.
pub proof fn lemma_unknown_oid_passes_through(oid: Seq<char>)
    requires
        oid != "1.2.840.113549.1.1.5"@,
        oid != "1.2.840.113549.1.1.11"@,
        oid != "1.2.840.113549.1.1.12"@,
        oid != "1.2.840.113549.1.1.13"@,
        oid != "1.2.840.113549.1.1.10"@,
        oid != "1.2.840.10045.4.1"@,
        oid != "1.2.840.10045.4.3.2"@,
        oid != "1.2.840.10045.4.3.3"@,
        oid != "1.2.840.10045.4.3.4"@,
    ensures
        spec_oid_description(oid) == oid,
{
}

} // verus!
