//! Materials.
use vstd::prelude::*;
use crate::error::{is_parse_error, TrussError};
use crate::input::records::{number_of, read_records, text_records, Record};
use crate::scalar::{parse_answers, Scalar};

verus! {

/// A material, by name, with its modulus of elasticity.
#[derive(Debug)]
pub struct Material<T> {
    pub name: String,
    pub e_modulus: T,
}

/// `material` is the material that a record with these fields describes: its
/// name and its modulus of elasticity.
pub open spec fn is_material_record<T: Scalar>(
    fields: Seq<Seq<char>>,
    material: Material<T>,
) -> bool {
    &&& fields.len() >= 2
    &&& material.name@ == fields[0]
    &&& parse_answers(fields[1], Some(material.e_modulus))
}

/// A record with these fields describes no material: it has fewer than two
/// fields, or its modulus was not read as a number.
pub open spec fn is_malformed_material_record<T: Scalar>(fields: Seq<Seq<char>>) -> bool {
    ||| fields.len() < 2
    ||| parse_answers::<T>(fields[1], None)
}

/// A record with these fields was read as a material.
pub open spec fn is_sound_material_record<T: Scalar>(fields: Seq<Seq<char>>) -> bool {
    exists|material: Material<T>| #[trigger] is_material_record(fields, material)
}

/// The material that `record` describes.
fn material_of_record<T: Scalar>(record: &Record) -> (material: Option<Material<T>>)
    ensures
        match material {
            Some(material) => is_material_record(record.field_views(), material),
            None => is_malformed_material_record::<T>(record.field_views()),
        },
{
    if record.fields.len() < 2 {
        return None;
    }
    match number_of::<T>(&record.fields[1]) {
        Some(e_modulus) => Some(Material { name: record.fields[0].clone(), e_modulus }),
        None => None,
    }
}

/// Reads the materials from a text with one record `name, modulus` per line.
///
/// Fails with `Parse`, giving the number of lines before it, at the first record
/// that has fewer than two fields or whose modulus is no number.
pub fn parse_material<T: Scalar>(content: &str) -> (result: Result<Vec<Material<T>>, TrussError>)
    ensures
        match result {
            Ok(materials) => {
                &&& materials@.len() == text_records(content@).len()
                &&& forall|i: int|
                    0 <= i < materials@.len() ==> is_material_record(
                        text_records(content@)[i].1,
                        #[trigger] materials@[i],
                    )
            },
            Err(e) => exists|i: int|
                {
                    &&& 0 <= i < text_records(content@).len()
                    &&& is_parse_error(e, (#[trigger] text_records(content@)[i]).0)
                    &&& is_malformed_material_record::<T>(text_records(content@)[i].1)
                    &&& forall|j: int|
                        0 <= j < i ==> is_sound_material_record::<T>(
                            (#[trigger] text_records(content@)[j]).1,
                        )
                },
        },
{
    let records = read_records(content);
    let ghost expected = text_records(content@);
    let mut materials: Vec<Material<T>> = Vec::new();
    let mut i: usize = 0;
    while i < records.len()
        invariant
            i <= records@.len(),
            expected == text_records(content@),
            records@.len() == expected.len(),
            forall|j: int|
                0 <= j < records@.len() ==> (#[trigger] records@[j]).line == expected[j].0
                    && records@[j].field_views() == expected[j].1,
            materials@.len() == i,
            forall|j: int|
                0 <= j < i ==> is_material_record(expected[j].1, #[trigger] materials@[j]),
        decreases records@.len() - i,
    {
        match material_of_record::<T>(&records[i]) {
            Some(material) => {
                materials.push(material);
            },
            None => {
                proof {
                    assert forall|j: int| 0 <= j < i implies is_sound_material_record::<T>(
                        (#[trigger] expected[j]).1,
                    ) by {
                        assert(is_material_record(expected[j].1, materials@[j]));
                    }
                }
                return Err(TrussError::Parse(records[i].line));
            },
        }
        i += 1;
    }
    Ok(materials)
}

} // verus!
