//! Members.
use vstd::prelude::*;
use crate::error::{is_parse_error, TrussError};
use crate::input::records::{read_records, text_records, Record};

verus! {

/// A bar between the nodes named `kp_1` and `kp_2`.
#[derive(Debug)]
pub struct Connection {
    pub name: String,
    pub kp_1: String,
    pub kp_2: String,
    pub material: String,
}

/// `conn` is the member that a record with these fields describes: its name, the
/// names of its two ends, and the name of its material.
pub open spec fn is_connection_record(fields: Seq<Seq<char>>, conn: Connection) -> bool {
    &&& fields.len() >= 4
    &&& conn.name@ == fields[0]
    &&& conn.kp_1@ == fields[1]
    &&& conn.kp_2@ == fields[2]
    &&& conn.material@ == fields[3]
}

/// `i` is the first record with fewer than four fields.
pub open spec fn is_first_short_record(
    records: Seq<(int, Seq<Seq<char>>)>,
    least: int,
    i: int,
) -> bool {
    &&& 0 <= i < records.len()
    &&& records[i].1.len() < least
    &&& forall|j: int| 0 <= j < i ==> (#[trigger] records[j]).1.len() >= least
}

/// The member that `record` describes.
fn connection_of_record(record: &Record) -> (conn: Option<Connection>)
    ensures
        match conn {
            Some(conn) => is_connection_record(record.field_views(), conn),
            None => record.field_views().len() < 4,
        },
{
    if record.fields.len() < 4 {
        return None;
    }
    Some(
        Connection {
            name: record.fields[0].clone(),
            kp_1: record.fields[1].clone(),
            kp_2: record.fields[2].clone(),
            material: record.fields[3].clone(),
        },
    )
}

/// Reads the members from a text with one record `name, node, node, material` per
/// line.
///
/// Fails with `Parse`, giving the number of lines before it, at the first record
/// that has fewer than four fields; succeeds where there is none.
pub fn parse_connection(content: &str) -> (result: Result<Vec<Connection>, TrussError>)
    ensures
        match result {
            Ok(conn_list) => {
                &&& conn_list@.len() == text_records(content@).len()
                &&& forall|i: int|
                    0 <= i < conn_list@.len() ==> is_connection_record(
                        text_records(content@)[i].1,
                        #[trigger] conn_list@[i],
                    )
            },
            Err(e) => exists|i: int|
                is_first_short_record(text_records(content@), 4, i) && is_parse_error(
                    e,
                    (#[trigger] text_records(content@)[i]).0,
                ),
        },
{
    let records = read_records(content);
    let ghost expected = text_records(content@);
    let mut conn_list: Vec<Connection> = Vec::new();
    let mut i: usize = 0;
    while i < records.len()
        invariant
            i <= records@.len(),
            expected == text_records(content@),
            records@.len() == expected.len(),
            forall|j: int|
                0 <= j < records@.len() ==> (#[trigger] records@[j]).line == expected[j].0
                    && records@[j].field_views() == expected[j].1,
            conn_list@.len() == i,
            forall|j: int|
                0 <= j < i ==> is_connection_record(expected[j].1, #[trigger] conn_list@[j]),
        decreases records@.len() - i,
    {
        match connection_of_record(&records[i]) {
            Some(conn) => {
                conn_list.push(conn);
            },
            None => {
                proof {
                    assert forall|j: int| 0 <= j < i implies (#[trigger] expected[j]).1.len()
                        >= 4 by {
                        assert(is_connection_record(expected[j].1, conn_list@[j]));
                    }
                }
                return Err(TrussError::Parse(records[i].line));
            },
        }
        i += 1;
    }
    Ok(conn_list)
}

} // verus!
