use vstd::prelude::*;

use crate::field::element_matches;
use crate::field::kind_of;
use crate::field::FieldValue;
use crate::field::TemplateType;
use crate::field::TupleField;
use crate::tuple::Tuple;

verus! {

/// The mathematical value of a template: its elements in order.
pub type TemplateValue = Seq<(FieldValue, TemplateType)>;

/// Whether a template matches a tuple: both have the same length, and each
/// element matches the field at its position.
pub open spec fn template_matches(q: TemplateValue, t: Seq<FieldValue>) -> bool {
    &&& q.len() == t.len()
    &&& forall|i: int| 0 <= i < q.len() ==> element_matches(#[trigger] q[i].0, q[i].1, t[i])
}

/// An ordered sequence of `(sample field, mode)` elements that selects tuples.
pub struct Template {
    pub fields: Vec<(TupleField, TemplateType)>,
}

/// The values of a sequence of template elements.
pub open spec fn element_values(fields: Seq<(TupleField, TemplateType)>) -> TemplateValue {
    fields.map_values(|e: (TupleField, TemplateType)| (e.0@, e.1))
}

impl View for Template {
    type V = TemplateValue;

    open spec fn view(&self) -> TemplateValue {
        element_values(self.fields@)
    }
}

impl Template {
    /// A template with no elements.
    pub fn new() -> (r: Template)
        ensures
            r@ == Seq::<(FieldValue, TemplateType)>::empty(),
    {
        let r = Template { fields: Vec::new() };
        assert(r@ =~= Seq::<(FieldValue, TemplateType)>::empty());
        r
    }

    /// A template of the given elements, in order.
    pub fn new_fields(fields: Vec<(TupleField, TemplateType)>) -> (r: Template)
        ensures
            r@ == element_values(fields@),
    {
        Template { fields }
    }

    /// Appends an element.
    pub fn push(&mut self, element: (TupleField, TemplateType))
        ensures
            final(self)@ == old(self)@.push((element.0@, element.1)),
    {
        self.fields.push(element);
        assert(final(self)@ =~= old(self)@.push((element.0@, element.1)));
    }

    /// Whether this template matches `tuple`.
    pub fn query(&self, tuple: &Tuple) -> (r: bool)
        ensures
            r == template_matches(self@, tuple@),
    {
        if self.fields.len() != tuple.fields.len() {
            return false;
        }
        let mut i: usize = 0;
        while i < self.fields.len()
            invariant
                self@.len() == tuple@.len(),
                i <= self@.len(),
                forall|j: int| 0 <= j < i ==> element_matches(#[trigger] self@[j].0, self@[j].1, tuple@[j]),
            decreases self@.len() - i,
        {
            let element = &self.fields[i];
            let ok = element.0.query(&tuple.fields[i], &element.1);
            assert(self@[i as int] == (element.0@, element.1));
            assert(tuple@[i as int] == tuple.fields@[i as int]@);
            if !ok {
                assert(!element_matches(self@[i as int].0, self@[i as int].1, tuple@[i as int]));
                return false;
            }
            i = i + 1;
        }
        true
    }
}

impl Clone for Template {
    fn clone(&self) -> (r: Template)
        ensures
            r@ == self@,
    {
        let mut fields: Vec<(TupleField, TemplateType)> = Vec::new();
        let mut i: usize = 0;
        while i < self.fields.len()
            invariant
                i <= self.fields@.len(),
                fields@.len() == i,
                forall|j: int| 0 <= j < i ==> (#[trigger] fields@[j]).0@ == self.fields@[j].0@ && fields@[j].1 == self.fields@[j].1,
            decreases self.fields@.len() - i,
        {
            let e = &self.fields[i];
            fields.push((e.0.clone(), e.1));
            i = i + 1;
        }
        let r = Template { fields };
        assert(r@ =~= self@);
        r
    }
}

/// Matching is nominal: where a template matches a tuple, each field of the
/// tuple has exactly the kind of the template's element at its position.
pub proof fn lemma_matching_is_nominal(q: TemplateValue, t: Seq<FieldValue>)
    requires
        template_matches(q, t),
    ensures
        forall|i: int| 0 <= i < q.len() ==> kind_of(#[trigger] t[i]) == kind_of(q[i].0),
{
    assert forall|i: int| 0 <= i < q.len() implies kind_of(#[trigger] t[i]) == kind_of(q[i].0) by {
        assert(element_matches(q[i].0, q[i].1, t[i]));
    }
}

} // verus!
