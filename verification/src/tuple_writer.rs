//! Writing the rows of messages as tuple bytes, which [`crate::TupleParser`] reads.
use crate::pgoutput;
use crate::pgoutput::{Field, FieldModel};
use vstd::prelude::*;

verus! {

/// The byte that stands for a NULL.
pub const NULL_MARK: u8 = 255;

/// The bytes of one value. A value that was not sent is written as a NULL.
pub open spec fn field_bytes(field: FieldModel) -> Seq<u8> {
    match field {
        FieldModel::Null => seq![NULL_MARK],
        FieldModel::Unchanged => seq![NULL_MARK],
        FieldModel::Text(text) => text.push(0),
    }
}

/// The tuple bytes of a row: those of its values, one behind the other.
pub open spec fn written(fields: Seq<FieldModel>) -> Seq<u8>
    decreases fields.len(),
{
    if fields.len() == 0 {
        Seq::empty()
    } else {
        field_bytes(fields[0]) + written(fields.skip(1))
    }
}

/// Writes a row as tuple bytes.
pub fn write_tuple(fields: &Vec<Field>) -> (bytes: Vec<u8>)
    ensures
        bytes@ == written(pgoutput::field_models(fields@)),
{
    let ghost all = pgoutput::field_models(fields@);
    let mut bytes: Vec<u8> = Vec::new();
    let mut i: usize = 0;
    proof {
        assert(all.skip(0) =~= all);
        assert(bytes@ + written(all) =~= written(all));
    }
    while i < fields.len()
        invariant
            i <= fields@.len(),
            all == pgoutput::field_models(fields@),
            bytes@ + written(all.skip(i as int)) == written(all),
        decreases fields@.len() - i,
    {
        let ghost before = bytes@;
        match &fields[i] {
            Field::Text(text) => {
                bytes.extend_from_slice(text.as_slice());
                bytes.push(0);
            },
            _ => {
                bytes.push(NULL_MARK);
            },
        }
        proof {
            let rest = all.skip(i as int);
            assert(rest[0] == fields@[i as int]@);
            assert(rest.skip(1) =~= all.skip(i + 1));
            assert(bytes@ =~= before + field_bytes(rest[0]));
            assert(before + (field_bytes(rest[0]) + written(rest.skip(1))) =~= (before
                + field_bytes(rest[0])) + written(rest.skip(1)));
        }
        i += 1;
    }
    assert(bytes@ + Seq::empty() =~= bytes@);
    bytes
}

} // verus!
