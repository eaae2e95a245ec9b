use vstd::prelude::*;

use crate::field::FieldValue;
use crate::field::TupleField;

verus! {

/// An ordered, fixed sequence of typed fields.
pub struct Tuple {
    pub fields: Vec<TupleField>,
}

/// The values of a sequence of fields.
pub open spec fn field_values(fields: Seq<TupleField>) -> Seq<FieldValue> {
    fields.map_values(|f: TupleField| f@)
}

impl View for Tuple {
    type V = Seq<FieldValue>;

    open spec fn view(&self) -> Seq<FieldValue> {
        field_values(self.fields@)
    }
}

impl Tuple {
    /// A tuple of the given fields, in order.
    pub fn new(fields: Vec<TupleField>) -> (r: Tuple)
        ensures
            r@ == field_values(fields@),
    {
        Tuple { fields }
    }

    /// The field at `index`.
    pub fn get_field(&self, index: usize) -> (r: &TupleField)
        requires
            index < self@.len(),
        ensures
            r@ == self@[index as int],
    {
        &self.fields[index]
    }

    /// The number of fields.
    pub fn len(&self) -> (r: usize)
        ensures
            r == self@.len(),
    {
        self.fields.len()
    }
}

impl Clone for Tuple {
    fn clone(&self) -> (r: Tuple)
        ensures
            r@ == self@,
    {
        let mut fields: Vec<TupleField> = Vec::new();
        let mut i: usize = 0;
        while i < self.fields.len()
            invariant
                i <= self.fields@.len(),
                fields@.len() == i,
                forall|j: int| 0 <= j < i ==> fields@[j]@ == self.fields@[j]@,
            decreases self.fields@.len() - i,
        {
            fields.push(self.fields[i].clone());
            i = i + 1;
        }
        let r = Tuple { fields };
        assert(r@ =~= self@);
        r
    }
}

} // verus!
