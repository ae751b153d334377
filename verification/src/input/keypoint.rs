//! Nodes.
use vstd::prelude::*;
use crate::error::{is_parse_error, TrussError};
use crate::input::records::{number_of, read_records, text_records, Record};
use crate::scalar::{is_zero, parse_answers, Scalar};

verus! {

/// A node of the truss: where it lies, and, once a run has ended, the force on it
/// and how far it moved.
#[derive(Debug)]
pub struct Keypoint<T> {
    pub name: String,
    pub x: T,
    pub y: T,
    pub fx: T,
    pub fy: T,
    pub ux: T,
    pub uy: T,
}

/// `kp` is the node that a record with these fields describes: its name, then
/// its x and y, with no force on it and no displacement yet.
pub open spec fn is_keypoint_record<T: Scalar>(fields: Seq<Seq<char>>, kp: Keypoint<T>) -> bool {
    &&& fields.len() >= 3
    &&& kp.name@ == fields[0]
    &&& parse_answers(fields[1], Some(kp.x))
    &&& parse_answers(fields[2], Some(kp.y))
    &&& is_zero(kp.fx)
    &&& is_zero(kp.fy)
    &&& is_zero(kp.ux)
    &&& is_zero(kp.uy)
}

/// A record with these fields describes no node: it has fewer than three fields,
/// or its x or y was not read as a number.
pub open spec fn is_malformed_keypoint_record<T: Scalar>(fields: Seq<Seq<char>>) -> bool {
    ||| fields.len() < 3
    ||| parse_answers::<T>(fields[1], None)
    ||| parse_answers::<T>(fields[2], None)
}

/// A record with these fields was read as a node.
pub open spec fn is_sound_keypoint_record<T: Scalar>(fields: Seq<Seq<char>>) -> bool {
    exists|kp: Keypoint<T>| #[trigger] is_keypoint_record(fields, kp)
}

/// The node that `record` describes.
fn keypoint_of_record<T: Scalar>(record: &Record) -> (kp: Option<Keypoint<T>>)
    ensures
        match kp {
            Some(kp) => is_keypoint_record(record.field_views(), kp),
            None => is_malformed_keypoint_record::<T>(record.field_views()),
        },
{
    if record.fields.len() < 3 {
        return None;
    }
    let x = match number_of::<T>(&record.fields[1]) {
        Some(x) => x,
        None => {
            return None;
        },
    };
    let y = match number_of::<T>(&record.fields[2]) {
        Some(y) => y,
        None => {
            return None;
        },
    };
    Some(
        Keypoint {
            name: record.fields[0].clone(),
            x,
            y,
            fx: T::zero(),
            fy: T::zero(),
            ux: T::zero(),
            uy: T::zero(),
        },
    )
}

/// Reads the nodes from a text with one record `name, x, y` per line.
///
/// Fails with `Parse`, giving the number of lines before it, at the first record
/// that has fewer than three fields or whose x or y is no number.
pub fn parse_keypoint<T: Scalar>(content: &str) -> (result: Result<Vec<Keypoint<T>>, TrussError>)
    ensures
        match result {
            Ok(kp_list) => {
                &&& kp_list@.len() == text_records(content@).len()
                &&& forall|i: int|
                    0 <= i < kp_list@.len() ==> is_keypoint_record(
                        text_records(content@)[i].1,
                        #[trigger] kp_list@[i],
                    )
            },
            Err(e) => exists|i: int|
                {
                    &&& 0 <= i < text_records(content@).len()
                    &&& is_parse_error(e, (#[trigger] text_records(content@)[i]).0)
                    &&& is_malformed_keypoint_record::<T>(text_records(content@)[i].1)
                    &&& forall|j: int|
                        0 <= j < i ==> is_sound_keypoint_record::<T>(
                            (#[trigger] text_records(content@)[j]).1,
                        )
                },
        },
{
    let records = read_records(content);
    let ghost expected = text_records(content@);
    let mut kp_list: Vec<Keypoint<T>> = Vec::new();
    let mut i: usize = 0;
    while i < records.len()
        invariant
            i <= records@.len(),
            expected == text_records(content@),
            records@.len() == expected.len(),
            forall|j: int|
                0 <= j < records@.len() ==> (#[trigger] records@[j]).line == expected[j].0
                    && records@[j].field_views() == expected[j].1,
            kp_list@.len() == i,
            forall|j: int| 0 <= j < i ==> is_keypoint_record(expected[j].1, #[trigger] kp_list@[j]),
        decreases records@.len() - i,
    {
        match keypoint_of_record::<T>(&records[i]) {
            Some(kp) => {
                kp_list.push(kp);
            },
            None => {
                proof {
                    assert forall|j: int| 0 <= j < i implies is_sound_keypoint_record::<T>(
                        (#[trigger] expected[j]).1,
                    ) by {
                        assert(is_keypoint_record(expected[j].1, kp_list@[j]));
                    }
                }
                return Err(TrussError::Parse(records[i].line));
            },
        }
        i += 1;
    }
    Ok(kp_list)
}

} // verus!
