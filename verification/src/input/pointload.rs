//! Loads.
use vstd::prelude::*;
use crate::error::{is_parse_error, TrussError};
use crate::input::records::{number_of, read_records, text_records, Record};
use crate::scalar::{parse_answers, Scalar};

verus! {

/// A force applied at the node named `keypoint`.
#[derive(Debug)]
pub struct Pointload<T> {
    pub name: String,
    pub keypoint: String,
    pub load_x: T,
    pub load_y: T,
}

/// `pl` is the load that a record with these fields describes: its name, the
/// name of its node, and its force along x and along y.
pub open spec fn is_pointload_record<T: Scalar>(fields: Seq<Seq<char>>, pl: Pointload<T>) -> bool {
    &&& fields.len() >= 4
    &&& pl.name@ == fields[0]
    &&& pl.keypoint@ == fields[1]
    &&& parse_answers(fields[2], Some(pl.load_x))
    &&& parse_answers(fields[3], Some(pl.load_y))
}

/// A record with these fields describes no load: it has fewer than four fields,
/// or one of its forces was not read as a number.
pub open spec fn is_malformed_pointload_record<T: Scalar>(fields: Seq<Seq<char>>) -> bool {
    ||| fields.len() < 4
    ||| parse_answers::<T>(fields[2], None)
    ||| parse_answers::<T>(fields[3], None)
}

/// A record with these fields was read as a load.
pub open spec fn is_sound_pointload_record<T: Scalar>(fields: Seq<Seq<char>>) -> bool {
    exists|pl: Pointload<T>| #[trigger] is_pointload_record(fields, pl)
}

/// The load that `record` describes.
fn pointload_of_record<T: Scalar>(record: &Record) -> (pl: Option<Pointload<T>>)
    ensures
        match pl {
            Some(pl) => is_pointload_record(record.field_views(), pl),
            None => is_malformed_pointload_record::<T>(record.field_views()),
        },
{
    if record.fields.len() < 4 {
        return None;
    }
    let load_x = match number_of::<T>(&record.fields[2]) {
        Some(v) => v,
        None => {
            return None;
        },
    };
    let load_y = match number_of::<T>(&record.fields[3]) {
        Some(v) => v,
        None => {
            return None;
        },
    };
    Some(
        Pointload {
            name: record.fields[0].clone(),
            keypoint: record.fields[1].clone(),
            load_x,
            load_y,
        },
    )
}

/// Reads the loads from a text with one record `name, node, force_x, force_y` per
/// line.
///
/// Fails with `Parse`, giving the number of lines before it, at the first record
/// that has fewer than four fields or a force that is no number.
pub fn parse_pointload<T: Scalar>(content: &str) -> (result: Result<Vec<Pointload<T>>, TrussError>)
    ensures
        match result {
            Ok(pl_list) => {
                &&& pl_list@.len() == text_records(content@).len()
                &&& forall|i: int|
                    0 <= i < pl_list@.len() ==> is_pointload_record(
                        text_records(content@)[i].1,
                        #[trigger] pl_list@[i],
                    )
            },
            Err(e) => exists|i: int|
                {
                    &&& 0 <= i < text_records(content@).len()
                    &&& is_parse_error(e, (#[trigger] text_records(content@)[i]).0)
                    &&& is_malformed_pointload_record::<T>(text_records(content@)[i].1)
                    &&& forall|j: int|
                        0 <= j < i ==> is_sound_pointload_record::<T>(
                            (#[trigger] text_records(content@)[j]).1,
                        )
                },
        },
{
    let records = read_records(content);
    let ghost expected = text_records(content@);
    let mut pl_list: Vec<Pointload<T>> = Vec::new();
    let mut i: usize = 0;
    while i < records.len()
        invariant
            i <= records@.len(),
            expected == text_records(content@),
            records@.len() == expected.len(),
            forall|j: int|
                0 <= j < records@.len() ==> (#[trigger] records@[j]).line == expected[j].0
                    && records@[j].field_views() == expected[j].1,
            pl_list@.len() == i,
            forall|j: int|
                0 <= j < i ==> is_pointload_record(expected[j].1, #[trigger] pl_list@[j]),
        decreases records@.len() - i,
    {
        match pointload_of_record::<T>(&records[i]) {
            Some(pl) => {
                pl_list.push(pl);
            },
            None => {
                proof {
                    assert forall|j: int| 0 <= j < i implies is_sound_pointload_record::<T>(
                        (#[trigger] expected[j]).1,
                    ) by {
                        assert(is_pointload_record(expected[j].1, pl_list@[j]));
                    }
                }
                return Err(TrussError::Parse(records[i].line));
            },
        }
        i += 1;
    }
    Ok(pl_list)
}

} // verus!
