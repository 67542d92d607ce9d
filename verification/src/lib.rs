//! Ingests a bundle of PEM-encoded X.509 certificates, extracts and
//! canonicalizes the public-key material of each certificate, and
//! produces one record per usable certificate, ordered by issuing
//! country, ready for JSON emission.

pub mod canonical;
pub mod decode;
pub mod oid;
pub mod pem;
pub mod pipeline;
pub mod record;
pub mod sort;
pub mod text;
