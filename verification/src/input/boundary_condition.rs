//! Supports.
use vstd::prelude::*;
use vstd::string::StrSliceExecFns;
use crate::error::{is_parse_error, TrussError};
use crate::input::records::{number_of, read_records, text_records, Record};
use crate::scalar::{
    equals_answers, exceeds_answers, is_negation, is_one, is_zero, parse_answers, Scalar,
};

verus! {

/// The directions that a support acts in.
#[derive(Debug, Clone, Copy, PartialEq, Eq, Structural)]
pub enum Fixture {
    X,
    Y,
    Both,
}

/// How a support holds a degree of freedom: rigidly, or through a spring of the
/// given stiffness.
#[derive(Debug)]
pub enum SupportMode<T> {
    Fixed,
    Spring(T),
}

/// A support at the node named `keypoint`.
#[derive(Debug)]
pub struct BoundaryCondition<T> {
    pub name: String,
    pub keypoint: String,
    pub fixture: Fixture,
    pub mode: SupportMode<T>,
}

/// The fixture that `text` denotes: `0` for x, `1` for y, `2` for both.
pub open spec fn fixture_of(text: Seq<char>) -> Option<Fixture> {
    if text == seq!['0'] {
        Some(Fixture::X)
    } else if text == seq!['1'] {
        Some(Fixture::Y)
    } else if text == seq!['2'] {
        Some(Fixture::Both)
    } else {
        None
    }
}

/// `mode` is what the stiffness `k` of a record stands for: a fixed support where
/// `k` is found equal to minus one, else a spring of stiffness `k` where `k` is
/// found greater than zero, else nothing.
pub open spec fn is_mode_of<T: Scalar>(k: T, mode: Option<SupportMode<T>>) -> bool {
    exists|unit: T, marker: T, z: T, fixed: bool, positive: bool|
        #![trigger equals_answers(k, marker, fixed), exceeds_answers(k, z, positive), is_one(unit)]
        {
            &&& is_one(unit)
            &&& is_negation(unit, marker)
            &&& equals_answers(k, marker, fixed)
            &&& is_zero(z)
            &&& exceeds_answers(k, z, positive)
            &&& mode == if fixed {
                Some(SupportMode::Fixed)
            } else if positive {
                Some(SupportMode::Spring(k))
            } else {
                None
            }
        }
}

/// `mode` is what the text `field` stands for, read as a number.
pub open spec fn is_mode_text<T: Scalar>(field: Seq<char>, mode: Option<SupportMode<T>>) -> bool {
    exists|k: T| #[trigger] parse_answers(field, Some(k)) && is_mode_of(k, mode)
}

/// `bc` is the support that a record with these fields describes: its name, the
/// name of its node, its fixture and its stiffness.
pub open spec fn is_boundary_condition_record<T: Scalar>(
    fields: Seq<Seq<char>>,
    bc: BoundaryCondition<T>,
) -> bool {
    &&& fields.len() >= 4
    &&& bc.name@ == fields[0]
    &&& bc.keypoint@ == fields[1]
    &&& fixture_of(fields[2]) == Some(bc.fixture)
    &&& is_mode_text(fields[3], Some(bc.mode))
}

/// A record with these fields describes no support: it has fewer than four
/// fields, or its fixture is none of `0`, `1` and `2`, or its stiffness was not
/// read as a number, or as one that is neither minus one nor greater than zero.
pub open spec fn is_malformed_boundary_condition_record<T: Scalar>(fields: Seq<Seq<char>>) -> bool {
    ||| fields.len() < 4
    ||| fixture_of(fields[2]) is None
    ||| parse_answers::<T>(fields[3], None)
    ||| is_mode_text::<T>(fields[3], None)
}

/// A record with these fields was read as a support.
pub open spec fn is_sound_boundary_condition_record<T: Scalar>(fields: Seq<Seq<char>>) -> bool {
    exists|bc: BoundaryCondition<T>| #[trigger] is_boundary_condition_record(fields, bc)
}

/// The fixture that `field` denotes.
fn fixture_of_field(field: &String) -> (fixture: Option<Fixture>)
    ensures
        fixture == fixture_of(field@),
{
    let text = field.as_str();
    if text.unicode_len() != 1 {
        return None;
    }
    let c = text.get_char(0);
    assert(field@ =~= seq![c]);
    if c == '0' {
        Some(Fixture::X)
    } else if c == '1' {
        Some(Fixture::Y)
    } else if c == '2' {
        Some(Fixture::Both)
    } else {
        None
    }
}

/// What the stiffness `k` of a record stands for.
fn mode_of<T: Scalar>(k: T) -> (mode: Option<SupportMode<T>>)
    ensures
        is_mode_of(k, mode),
{
    let unit = T::one();
    let marker = unit.negated();
    let fixed = k.equals(marker);
    let z = T::zero();
    let positive = k.exceeds(z);
    let mode = if fixed {
        Some(SupportMode::Fixed)
    } else if positive {
        Some(SupportMode::Spring(k))
    } else {
        None
    };
    assert(is_one(unit) && is_negation(unit, marker) && equals_answers(k, marker, fixed)
        && is_zero(z) && exceeds_answers(k, z, positive));
    mode
}

/// The support that `record` describes.
fn boundary_condition_of_record<T: Scalar>(record: &Record) -> (bc: Option<BoundaryCondition<T>>)
    ensures
        match bc {
            Some(bc) => is_boundary_condition_record(record.field_views(), bc),
            None => is_malformed_boundary_condition_record::<T>(record.field_views()),
        },
{
    if record.fields.len() < 4 {
        return None;
    }
    let fixture = match fixture_of_field(&record.fields[2]) {
        Some(fixture) => fixture,
        None => {
            return None;
        },
    };
    let k = match number_of::<T>(&record.fields[3]) {
        Some(k) => k,
        None => {
            return None;
        },
    };
    match mode_of(k) {
        Some(mode) => {
            Some(
                BoundaryCondition {
                    name: record.fields[0].clone(),
                    keypoint: record.fields[1].clone(),
                    fixture,
                    mode,
                },
            )
        },
        None => {
            None
        },
    }
}

/// Reads the supports from a text with one record `name, node, fixture,
/// stiffness` per line, where the fixture is `0` for x, `1` for y or `2` for both,
/// and the stiffness is minus one for a fixed support or the stiffness, greater
/// than zero, of a spring.
///
/// Fails with `Parse`, giving the number of lines before it, at the first record
/// that has fewer than four fields, another fixture, or a stiffness that is no
/// number or stands for neither kind of support.
pub fn parse_boundary_condition<T: Scalar>(content: &str) -> (result: Result<
    Vec<BoundaryCondition<T>>,
    TrussError,
>)
    ensures
        match result {
            Ok(bc_list) => {
                &&& bc_list@.len() == text_records(content@).len()
                &&& forall|i: int|
                    0 <= i < bc_list@.len() ==> is_boundary_condition_record(
                        text_records(content@)[i].1,
                        #[trigger] bc_list@[i],
                    )
            },
            Err(e) => exists|i: int|
                {
                    &&& 0 <= i < text_records(content@).len()
                    &&& is_parse_error(e, (#[trigger] text_records(content@)[i]).0)
                    &&& is_malformed_boundary_condition_record::<T>(text_records(content@)[i].1)
                    &&& forall|j: int|
                        0 <= j < i ==> is_sound_boundary_condition_record::<T>(
                            (#[trigger] text_records(content@)[j]).1,
                        )
                },
        },
{
    let records = read_records(content);
    let ghost expected = text_records(content@);
    let mut bc_list: Vec<BoundaryCondition<T>> = Vec::new();
    let mut i: usize = 0;
    while i < records.len()
        invariant
            i <= records@.len(),
            expected == text_records(content@),
            records@.len() == expected.len(),
            forall|j: int|
                0 <= j < records@.len() ==> (#[trigger] records@[j]).line == expected[j].0
                    && records@[j].field_views() == expected[j].1,
            bc_list@.len() == i,
            forall|j: int|
                0 <= j < i ==> is_boundary_condition_record(expected[j].1, #[trigger] bc_list@[j]),
        decreases records@.len() - i,
    {
        match boundary_condition_of_record::<T>(&records[i]) {
            Some(bc) => {
                bc_list.push(bc);
            },
            None => {
                proof {
                    assert forall|j: int|
                        0 <= j < i implies is_sound_boundary_condition_record::<T>(
                        (#[trigger] expected[j]).1,
                    ) by {
                        assert(is_boundary_condition_record(expected[j].1, bc_list@[j]));
                    }
                }
                return Err(TrussError::Parse(records[i].line));
            },
        }
        i += 1;
    }
    Ok(bc_list)
}

} // verus!
