//! Round-trip test: the emitted JSON document, re-parsed, yields the same
//! per-country grouping as a direct pass over the input records.

use masterlist_interpreter::record::CertificateRecord;
use masterlist_interpreter::sort::sort_certificates;
use serde_json::Number;
use serde_json::Value;

fn record(country: &str, tag: &str, key: &[u8]) -> CertificateRecord {
    CertificateRecord {
        signature_algorithm: tag.to_string(),
        public_key_primary: key.to_vec(),
        public_key_secondary: vec![0x01, 0x00, 0x01],
        issuing_country: country.to_string(),
        not_before: 1640995200,
        not_after: 1956528000,
        key_size: 8 * key.len(),
    }
}

fn sample_records() -> Vec<CertificateRecord> {
    vec![
        record("US", "sha256WithRSAEncryption", &[0xab, 0x01]),
        record("DE", "sha1-with-rsa-signature", &[0xcd, 0x02]),
        record("US", "rsassa-pss", &[0xef, 0x03]),
        record("FR", "ecdsa-with-SHA256", &[0x04, 0x05]),
        record("DE", "sha256WithRSAEncryption", &[0x12, 0x06]),
    ]
}

fn byte_array(bytes: &[u8]) -> Value {
    Value::Array(bytes.iter().map(|b| Value::Number(Number::from(*b))).collect())
}

fn record_to_value(r: &CertificateRecord) -> Value {
    let mut validity = serde_json::Map::new();
    validity.insert("not_before".to_string(), Value::Number(Number::from(r.not_before)));
    validity.insert("not_after".to_string(), Value::Number(Number::from(r.not_after)));
    let mut m = serde_json::Map::new();
    m.insert(
        "signature_algorithm".to_string(),
        Value::String(r.signature_algorithm.clone()),
    );
    m.insert("public_key".to_string(), byte_array(&r.public_key_primary));
    m.insert("parameters".to_string(), byte_array(&r.public_key_secondary));
    m.insert("issuing_country".to_string(), Value::String(r.issuing_country.clone()));
    m.insert("validity".to_string(), Value::Object(validity));
    m.insert("key_size".to_string(), Value::Number(Number::from(r.key_size as u64)));
    Value::Object(m)
}

fn document(records: &[CertificateRecord]) -> Value {
    let mut root = serde_json::Map::new();
    root.insert(
        "certificates".to_string(),
        Value::Array(records.iter().map(record_to_value).collect()),
    );
    Value::Object(root)
}

/// Groups values by country, keeping each group's internal order.
fn group_values(values: &[Value]) -> Vec<(String, Vec<Value>)> {
    let mut groups: Vec<(String, Vec<Value>)> = Vec::new();
    for v in values {
        let country = v["issuing_country"].as_str().unwrap().to_string();
        match groups.iter_mut().find(|(c, _)| *c == country) {
            Some((_, g)) => g.push(v.clone()),
            None => groups.push((country, vec![v.clone()])),
        }
    }
    groups.sort_by(|a, b| a.0.cmp(&b.0));
    groups
}

#[test]
fn json_round_trip_preserves_country_groups() {
    let direct: Vec<Value> = sample_records().iter().map(record_to_value).collect();
    let direct_groups = group_values(&direct);

    let sorted = sort_certificates(sample_records());
    let text = serde_json::to_string_pretty(&document(&sorted)).unwrap();
    let reparsed: Value = serde_json::from_str(&text).unwrap();
    let certs = reparsed["certificates"].as_array().unwrap();
    let reparsed_groups = group_values(certs);

    assert_eq!(reparsed_groups, direct_groups);
}

#[test]
fn emitted_document_is_sorted_by_country() {
    let sorted = sort_certificates(sample_records());
    let text = serde_json::to_string_pretty(&document(&sorted)).unwrap();
    let reparsed: Value = serde_json::from_str(&text).unwrap();
    let certs = reparsed["certificates"].as_array().unwrap();
    let countries: Vec<&str> =
        certs.iter().map(|c| c["issuing_country"].as_str().unwrap()).collect();
    let mut expected = countries.clone();
    expected.sort();
    assert_eq!(countries, expected);
    assert_eq!(countries, vec!["DE", "DE", "FR", "US", "US"]);
}
