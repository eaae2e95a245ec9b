use vstd::prelude::*;

use crate::space::matching;
use crate::space::not_matching;
use crate::space::tuple_values;
use crate::template::template_matches;
use crate::template::Template;
use crate::tuple::Tuple;

verus! {

broadcast use vstd::seq_lib::group_seq_properties;

/// Takes out of `items` every tuple that `template` matches and returns
/// them; both the taken and the kept tuples stay in their order.
pub fn drain_filter(items: &mut Vec<Tuple>, template: &Template) -> (r: Vec<Tuple>)
    ensures
        tuple_values(r@) == matching(tuple_values(old(items)@), template@),
        tuple_values(final(items)@) == not_matching(tuple_values(old(items)@), template@),
{
    let mut all: Vec<Tuple> = Vec::new();
    std::mem::swap(&mut all, items);
    let ghost orig = all@;
    let ghost q = template@;
    let mut taken: Vec<Tuple> = Vec::new();
    let mut kept: Vec<Tuple> = Vec::new();
    for t in it: all.into_iter()
        invariant
            it.seq() == orig,
            q == template@,
            tuple_values(taken@) == matching(tuple_values(orig.take(it.index())), q),
            tuple_values(kept@) == not_matching(tuple_values(orig.take(it.index())), q),
    {
        let ghost i = it.index();
        let ghost before = tuple_values(orig.take(i));
        let ghost after = tuple_values(orig.take(i + 1));
        assert(after =~= before.push(t@));
        proof {
            before.lemma_filter_push(t@, |u: Seq<crate::field::FieldValue>| template_matches(q, u));
            before.lemma_filter_push(t@, |u: Seq<crate::field::FieldValue>| !template_matches(q, u));
        }
        if template.query(&t) {
            taken.push(t);
            assert(tuple_values(taken@) =~= matching(before, q).push(t@));
        } else {
            kept.push(t);
            assert(tuple_values(kept@) =~= not_matching(before, q).push(t@));
        }
    }
    assert(orig.take(orig.len() as int) =~= orig);
    *items = kept;
    taken
}

} // verus!
