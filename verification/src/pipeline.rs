//! The certificate ingestion pipeline: reads PEM frames, decodes each to
//! a record, and accumulates the records in encounter order.

use vstd::prelude::*;
use crate::decode::record_of_der;
use crate::decode::spec_record_of;
use crate::pem::pem_frame_of;
use crate::pem::read_pem_frame;
use crate::record::CertificateRecord;
use crate::record::MasterlistError;
use crate::record::RecordView;
use crate::record::views_of;

verus! {

/// The records one decoded DER frame contributes: one record where the
/// frame yields a usable certificate, none otherwise.
pub open spec fn frame_records(contents: Seq<u8>) -> Seq<RecordView> {
    match spec_record_of(contents) {
        Option::Some(r) => seq![r],
        Option::None => Seq::empty(),
    }
}

/// The records of a whole input, in encounter order: frames are read from
/// the front until the first absent or malformed frame, and each frame
/// contributes its records. The frame reader consumes at least one byte
/// per frame, so the recursion is bounded by the input length.
pub open spec fn spec_records(data: Seq<u8>) -> Seq<RecordView>
    decreases data.len(),
{
    match pem_frame_of(data) {
        Option::None => Seq::empty(),
        Option::Some((contents, rest)) => if rest.len() < data.len() {
            frame_records(contents) + spec_records(rest)
        } else {
            frame_records(contents)
        },
    }
}

/// Reads every PEM frame of the input and collects one record per usable
/// certificate, in encounter order. Yields the records exactly where the
/// input holds at least one usable certificate, and the empty-result
/// error exactly where it holds none.
pub fn parse_certificates(data: &[u8]) -> (r: Result<Vec<CertificateRecord>, MasterlistError>)
    ensures
        match r {
            Ok(records) => views_of(records@) == spec_records(data@) && spec_records(
                data@,
            ).len() > 0,
            Err(e) => e is NoValidCertificates && spec_records(data@).len() == 0,
        },
{
    let mut records: Vec<CertificateRecord> = Vec::new();
    let mut remaining: Vec<u8> = vstd::slice::slice_to_vec(data);
    let mut done: bool = false;
    while !done
        invariant
            views_of(records@) + spec_records(remaining@) == spec_records(data@),
            done ==> spec_records(remaining@) == Seq::<RecordView>::empty(),
        decreases remaining@.len() + (if done { 0int } else { 1 }),
    {
        match read_pem_frame(remaining.as_slice()) {
            None => {
                done = true;
            },
            Some((contents, rest)) => {
                proof {
                    assert(spec_records(remaining@) == frame_records(contents@)
                        + spec_records(rest@));
                }
                match record_of_der(contents.as_slice()) {
                    Some(rec) => {
                        proof {
                            assert(frame_records(contents@) =~= seq![rec@]);
                            assert(views_of(records@.push(rec)) =~= views_of(records@)
                                + seq![rec@]);
                        }
                        records.push(rec);
                    },
                    None => {
                        proof {
                            assert(frame_records(contents@) =~= Seq::<RecordView>::empty());
                        }
                    },
                }
                remaining = rest;
            },
        }
    }
    if records.len() == 0 {
        proof {
            assert(views_of(records@) =~= Seq::<RecordView>::empty());
        }
        Err(MasterlistError::NoValidCertificates)
    } else {
        proof {
            assert(views_of(records@).len() == records@.len());
        }
        Ok(records)
    }
}

/// Every record of an input arises from the DER contents of one of its
/// frames: the pipeline adds no record of its own.
pub proof fn lemma_records_come_from_frames(data: Seq<u8>)
    ensures
        forall|i: int|
            0 <= i < spec_records(data).len() ==> exists|der: Seq<u8>|
                spec_record_of(der) == Option::Some(#[trigger] spec_records(data)[i]),
    decreases data.len(),
{
    match pem_frame_of(data) {
        Option::None => {},
        Option::Some((contents, rest)) => {
            if rest.len() < data.len() {
                lemma_records_come_from_frames(rest);
                assert forall|i: int| 0 <= i < spec_records(data).len() implies exists|
                    der: Seq<u8>,
                |
                    spec_record_of(der) == Option::Some(#[trigger] spec_records(data)[i]) by {
                    if i < frame_records(contents).len() {
                        assert(spec_record_of(contents) == Option::Some(spec_records(data)[i]));
                    } else {
                        let j = i - frame_records(contents).len();
                        assert(spec_records(data)[i] == spec_records(rest)[j]);
                    }
                }
            } else {
                assert forall|i: int| 0 <= i < spec_records(data).len() implies exists|
                    der: Seq<u8>,
                |
                    spec_record_of(der) == Option::Some(#[trigger] spec_records(data)[i]) by {
                    assert(spec_record_of(contents) == Option::Some(spec_records(data)[i]));
                }
            }
        },
    }
}

} // verus!
