use vstd::prelude::*;

use crate::drain_filter::drain_filter;
use crate::error::SpaceError;
use crate::field::FieldValue;
use crate::template::template_matches;
use crate::template::Template;
use crate::template::TemplateValue;
use crate::tuple::Tuple;

verus! {

broadcast use vstd::seq_lib::group_seq_properties;

/// The rule by which a space picks one tuple among those that match.
#[derive(Clone, Copy, Debug, PartialEq, Eq, Structural)]
pub enum SpaceType {
    /// The oldest matching tuple.
    Sequential,
    /// The oldest tuple, if it matches.
    Queue,
    /// The newest tuple, if it matches.
    Stack,
    /// The newest matching tuple.
    Pile,
    /// Any matching tuple, drawn at random.
    Random,
}

/// The values of the tuples of a store, in order.
pub open spec fn tuple_values(s: Seq<Tuple>) -> Seq<Seq<FieldValue>> {
    s.map_values(|t: Tuple| t@)
}

/// The positions of the tuples that `q` matches, in increasing order.
pub open spec fn match_positions(s: Seq<Seq<FieldValue>>, q: TemplateValue) -> Seq<int>
    decreases s.len(),
{
    if s.len() == 0 {
        Seq::empty()
    } else {
        let rest = match_positions(s.drop_last(), q);
        if template_matches(q, s.last()) {
            rest.push(s.len() - 1)
        } else {
            rest
        }
    }
}

/// Each entry of `match_positions` is a position of a matching tuple, the
/// entries increase, and every position of a matching tuple is one of them.
pub proof fn lemma_match_positions(s: Seq<Seq<FieldValue>>, q: TemplateValue)
    ensures
        forall|k: int|
            0 <= k < match_positions(s, q).len() ==> {
                let i = #[trigger] match_positions(s, q)[k];
                0 <= i < s.len() && template_matches(q, s[i])
            },
        forall|k1: int, k2: int|
            0 <= k1 < k2 < match_positions(s, q).len() ==> #[trigger] match_positions(s, q)[k1]
                < #[trigger] match_positions(s, q)[k2],
        forall|i: int|
            0 <= i < s.len() && template_matches(q, #[trigger] s[i]) ==> match_positions(s, q).contains(i),
    decreases s.len(),
{
    if s.len() > 0 {
        let rest = s.drop_last();
        lemma_match_positions(rest, q);
        let p = match_positions(s, q);
        let pr = match_positions(rest, q);
        assert forall|i: int| 0 <= i < s.len() && template_matches(q, #[trigger] s[i]) implies p.contains(i) by {
            if i < s.len() - 1 {
                assert(rest[i] == s[i]);
                let k = choose|k: int| 0 <= k < pr.len() && pr[k] == i;
                assert(p[k] == i);
            } else {
                assert(p[p.len() - 1] == i);
            }
        }
    }
}

/// The position that `policy` selects in `s` for `q`, if any; `pick` is the
/// random draw that the policy `Random` uses.
pub open spec fn selected(policy: SpaceType, s: Seq<Seq<FieldValue>>, q: TemplateValue, pick: int) -> Option<int> {
    let p = match_positions(s, q);
    match policy {
        SpaceType::Sequential => if p.len() > 0 { Some(p[0]) } else { None },
        SpaceType::Pile => if p.len() > 0 { Some(p.last()) } else { None },
        SpaceType::Queue => if s.len() > 0 && template_matches(q, s[0]) { Some(0) } else { None },
        SpaceType::Stack => if s.len() > 0 && template_matches(q, s.last()) {
            Some(s.len() - 1)
        } else {
            None
        },
        SpaceType::Random => if p.len() > 0 { Some(p[pick % (p.len() as int)]) } else { None },
    }
}

/// The store after the tuple at `i` was read, and taken out if `destroy`.
pub open spec fn after_look(s: Seq<Seq<FieldValue>>, i: int, destroy: bool) -> Seq<Seq<FieldValue>> {
    if destroy {
        s.remove(i)
    } else {
        s
    }
}

/// The tuples of `s` that `q` matches, in order.
pub open spec fn matching(s: Seq<Seq<FieldValue>>, q: TemplateValue) -> Seq<Seq<FieldValue>> {
    s.filter(|t: Seq<FieldValue>| template_matches(q, t))
}

/// The tuples of `s` that `q` does not match, in order.
pub open spec fn not_matching(s: Seq<Seq<FieldValue>>, q: TemplateValue) -> Seq<Seq<FieldValue>> {
    s.filter(|t: Seq<FieldValue>| !template_matches(q, t))
}

/// The state of a space.
pub struct SpaceState {
    pub store: Seq<Seq<FieldValue>>,
    pub waiters: Seq<u64>,
    pub spacetype: SpaceType,
}

/// The outcome of reading the store `s` of a space with the policy `policy`,
/// with `q` and the draw `pick`: the selected tuple is returned, and removed
/// if `destroy`; with none selected, `NotFound` and the store stays.
pub open spec fn look_outcome(
    policy: SpaceType,
    s: Seq<Seq<FieldValue>>,
    q: TemplateValue,
    pick: int,
    destroy: bool,
    r: Result<Tuple, SpaceError>,
    new_store: Seq<Seq<FieldValue>>,
) -> bool {
    match selected(policy, s, q, pick) {
        Some(i) => {
            &&& r is Ok
            &&& r->Ok_0@ == s[i]
            &&& new_store == after_look(s, i, destroy)
        },
        None => {
            &&& r == Err::<Tuple, SpaceError>(SpaceError::NotFound)
            &&& new_store == s
        },
    }
}

/// A tuple space: a store of tuples in the order they were put, the callers
/// waiting for a tuple, and the policy that selects among matches.
///
/// A waiter is named by a number that the caller chooses; `put` hands back
/// every waiter registered, to be woken, and forgets them.
pub struct LocalSpace {
    store: Vec<Tuple>,
    waiters: Vec<u64>,
    spacetype: SpaceType,
}

impl View for LocalSpace {
    type V = SpaceState;

    closed spec fn view(&self) -> SpaceState {
        SpaceState { store: tuple_values(self.store@), waiters: self.waiters@, spacetype: self.spacetype }
    }
}

/// Relies on rand::thread_rng and rand::Rng::gen_range: a number drawn from
/// `0..n`, which must not be empty.
#[verifier::external_body]
fn random_below(n: usize) -> (r: usize)
    requires
        n > 0,
    ensures
        r < n,
{
    rand::Rng::gen_range(&mut rand::thread_rng(), 0..n)
}

impl LocalSpace {
    /// An empty space with the given policy.
    pub fn new(spacetype: SpaceType) -> (r: LocalSpace)
        ensures
            r@.store == Seq::<Seq<FieldValue>>::empty(),
            r@.waiters == Seq::<u64>::empty(),
            r@.spacetype == spacetype,
    {
        let r = LocalSpace { store: Vec::new(), waiters: Vec::new(), spacetype };
        assert(r@.store =~= Seq::<Seq<FieldValue>>::empty());
        r
    }

    /// An empty space where `getp` and `queryp` return the oldest matching tuple.
    pub fn new_sequential() -> (r: LocalSpace)
        ensures
            r@.store == Seq::<Seq<FieldValue>>::empty(),
            r@.waiters == Seq::<u64>::empty(),
            r@.spacetype == SpaceType::Sequential,
    {
        LocalSpace::new(SpaceType::Sequential)
    }

    /// An empty space where `getp` and `queryp` return the oldest tuple, if it matches.
    pub fn new_queue() -> (r: LocalSpace)
        ensures
            r@.store == Seq::<Seq<FieldValue>>::empty(),
            r@.waiters == Seq::<u64>::empty(),
            r@.spacetype == SpaceType::Queue,
    {
        LocalSpace::new(SpaceType::Queue)
    }

    /// An empty space where `getp` and `queryp` return the newest tuple, if it matches.
    pub fn new_stack() -> (r: LocalSpace)
        ensures
            r@.store == Seq::<Seq<FieldValue>>::empty(),
            r@.waiters == Seq::<u64>::empty(),
            r@.spacetype == SpaceType::Stack,
    {
        LocalSpace::new(SpaceType::Stack)
    }

    /// An empty space where `getp` and `queryp` return the newest matching tuple.
    pub fn new_pile() -> (r: LocalSpace)
        ensures
            r@.store == Seq::<Seq<FieldValue>>::empty(),
            r@.waiters == Seq::<u64>::empty(),
            r@.spacetype == SpaceType::Pile,
    {
        LocalSpace::new(SpaceType::Pile)
    }

    /// An empty space where `getp` and `queryp` return a matching tuple drawn at random.
    pub fn new_random() -> (r: LocalSpace)
        ensures
            r@.store == Seq::<Seq<FieldValue>>::empty(),
            r@.waiters == Seq::<u64>::empty(),
            r@.spacetype == SpaceType::Random,
    {
        LocalSpace::new(SpaceType::Random)
    }

    /// The positions of the tuples that `template` matches, in order.
    pub fn positions(&self, template: &Template) -> (r: Vec<usize>)
        ensures
            r@.map_values(|i: usize| i as int) == match_positions(self@.store, template@),
    {
        let mut r: Vec<usize> = Vec::new();
        let mut i: usize = 0;
        while i < self.store.len()
            invariant
                i <= self.store@.len(),
                r@.map_values(|k: usize| k as int) == match_positions(self@.store.subrange(0, i as int), template@),
            decreases self.store@.len() - i,
        {
            let ghost s = self@.store.subrange(0, i as int + 1);
            assert(s.drop_last() =~= self@.store.subrange(0, i as int));
            assert(s.last() == self.store@[i as int]@);
            let m = template.query(&self.store[i]);
            if m {
                r.push(i);
                assert(r@.map_values(|k: usize| k as int) =~= match_positions(self@.store.subrange(0, i as int), template@).push(i as int));
            }
            i = i + 1;
        }
        assert(self@.store.subrange(0, self.store@.len() as int) =~= self@.store);
        r
    }

    /// The position of the tuple that the policy selects for `template`;
    /// `pick` stands for the random draw of the policy `Random`.
    pub fn select(&self, template: &Template, pick: usize) -> (r: Option<usize>)
        ensures
            match selected(self@.spacetype, self@.store, template@, pick as int) {
                Some(i) => r is Some && r->Some_0 as int == i,
                None => r is None,
            },
            r is Some ==> r->Some_0 < self@.store.len(),
    {
        proof {
            lemma_match_positions(self@.store, template@);
        }
        let n = self.store.len();
        match self.spacetype {
            SpaceType::Queue => {
                if n > 0 && template.query(&self.store[0]) {
                    Some(0)
                } else {
                    None
                }
            },
            SpaceType::Stack => {
                if n > 0 && template.query(&self.store[n - 1]) {
                    Some(n - 1)
                } else {
                    None
                }
            },
            _ => {
                let p = self.positions(template);
                let ghost pv = p@.map_values(|i: usize| i as int);
                assert(pv.len() == p@.len());
                if p.len() == 0 {
                    None
                } else {
                    let k: usize = match self.spacetype {
                        SpaceType::Sequential => 0,
                        SpaceType::Pile => p.len() - 1,
                        _ => pick % p.len(),
                    };
                    assert(pv[k as int] == p@[k as int] as int);
                    Some(p[k])
                }
            },
        }
    }

    /// Reads the tuple that the policy selects for `template`, with `pick`
    /// as the random draw, and takes it out of the store if `destroy`.
    pub fn look_with(&mut self, template: &Template, destroy: bool, pick: usize) -> (r: Result<Tuple, SpaceError>)
        ensures
            look_outcome(old(self)@.spacetype, old(self)@.store, template@, pick as int, destroy, r, final(self)@.store),
            final(self)@.waiters == old(self)@.waiters,
            final(self)@.spacetype == old(self)@.spacetype,
    {
        match self.select(template, pick) {
            None => Err(SpaceError::NotFound),
            Some(i) => {
                if destroy {
                    let t = self.store.remove(i);
                    assert(self@.store =~= old(self)@.store.remove(i as int));
                    assert(t@ == old(self)@.store[i as int]);
                    Ok(t)
                } else {
                    let t = self.store[i].clone();
                    assert(t@ == old(self)@.store[i as int]);
                    Ok(t)
                }
            },
        }
    }

    /// Reads the tuple that the policy selects for `template`, and takes it
    /// out of the store if `destroy`. The policy `Random` draws which of the
    /// matching tuples it selects.
    fn look(&mut self, template: &Template, destroy: bool) -> (r: Result<Tuple, SpaceError>)
        ensures
            exists|pick: int|
                0 <= pick && #[trigger] look_outcome(old(self)@.spacetype, old(self)@.store, template@, pick, destroy, r, final(self)@.store),
            final(self)@.waiters == old(self)@.waiters,
            final(self)@.spacetype == old(self)@.spacetype,
    {
        let mut pick: usize = 0;
        if self.spacetype == SpaceType::Random {
            let n = self.positions(template).len();
            if n > 0 {
                pick = random_below(n);
            }
        }
        self.look_with(template, destroy, pick)
    }

    /// Takes out and returns the tuple that the policy selects for
    /// `template`; `NotFound` if there is none.
    pub fn getp(&mut self, template: Template) -> (r: Result<Tuple, SpaceError>)
        ensures
            exists|pick: int|
                0 <= pick && #[trigger] look_outcome(old(self)@.spacetype, old(self)@.store, template@, pick, true, r, final(self)@.store),
            final(self)@.waiters == old(self)@.waiters,
            final(self)@.spacetype == old(self)@.spacetype,
    {
        self.look(&template, true)
    }

    /// Returns a copy of the tuple that the policy selects for `template`,
    /// which stays in the store; `NotFound` if there is none.
    pub fn queryp(&mut self, template: Template) -> (r: Result<Tuple, SpaceError>)
        ensures
            exists|pick: int|
                0 <= pick && #[trigger] look_outcome(old(self)@.spacetype, old(self)@.store, template@, pick, false, r, final(self)@.store),
            final(self)@.waiters == old(self)@.waiters,
            final(self)@.spacetype == old(self)@.spacetype,
    {
        self.look(&template, false)
    }

    /// As `getp` (if `destroy`) or `queryp`; when nothing is selected, the
    /// caller is registered as the waiter `waiter`, to be woken by a `put`.
    pub fn look_or_wait(&mut self, template: &Template, destroy: bool, waiter: u64) -> (r: Result<Tuple, SpaceError>)
        ensures
            exists|pick: int|
                0 <= pick && #[trigger] look_outcome(old(self)@.spacetype, old(self)@.store, template@, pick, destroy, r, final(self)@.store),
            final(self)@.spacetype == old(self)@.spacetype,
            final(self)@.waiters == if r is Ok {
                old(self)@.waiters
            } else {
                old(self)@.waiters.push(waiter)
            },
    {
        let r = self.look(template, destroy);
        let ghost mid = self@;
        if r.is_err() {
            self.waiters.push(waiter);
        }
        assert(self@.store == mid.store);
        r
    }

    /// Appends `tuple` to the store; returns every registered waiter, to be
    /// woken, and forgets them.
    pub fn put(&mut self, tuple: Tuple) -> (woken: Vec<u64>)
        ensures
            final(self)@.store == old(self)@.store.push(tuple@),
            final(self)@.waiters == Seq::<u64>::empty(),
            final(self)@.spacetype == old(self)@.spacetype,
            woken@ == old(self)@.waiters,
    {
        self.store.push(tuple);
        assert(self@.store =~= old(self)@.store.push(tuple@));
        let mut woken: Vec<u64> = Vec::new();
        std::mem::swap(&mut woken, &mut self.waiters);
        woken
    }

    /// Takes out and returns every tuple that `template` matches, in store
    /// order; the others stay, in order.
    pub fn getall(&mut self, template: Template) -> (r: Vec<Tuple>)
        ensures
            tuple_values(r@) == matching(old(self)@.store, template@),
            final(self)@.store == not_matching(old(self)@.store, template@),
            final(self)@.waiters == old(self)@.waiters,
            final(self)@.spacetype == old(self)@.spacetype,
    {
        drain_filter(&mut self.store, &template)
    }

    /// Returns copies of every tuple that `template` matches, in store order.
    pub fn queryall(&self, template: Template) -> (r: Vec<Tuple>)
        ensures
            tuple_values(r@) == matching(self@.store, template@),
    {
        let mut r: Vec<Tuple> = Vec::new();
        let ghost q = template@;
        let ghost s = self@.store;
        let mut i: usize = 0;
        while i < self.store.len()
            invariant
                i <= self.store@.len(),
                s == self@.store,
                q == template@,
                tuple_values(r@) == matching(s.take(i as int), q),
            decreases self.store@.len() - i,
        {
            let ghost before = s.take(i as int);
            assert(s.take(i as int + 1) =~= before.push(self.store@[i as int]@));
            proof {
                before.lemma_filter_push(self.store@[i as int]@, |u: Seq<FieldValue>| template_matches(q, u));
            }
            if template.query(&self.store[i]) {
                let t = self.store[i].clone();
                r.push(t);
                assert(tuple_values(r@) =~= matching(before, q).push(self.store@[i as int]@));
            }
            i = i + 1;
        }
        assert(s.take(s.len() as int) =~= s);
        r
    }

    /// The number of tuples in the store.
    pub fn len(&self) -> (r: usize)
        ensures
            r == self@.store.len(),
    {
        self.store.len()
    }

    /// The policy of this space.
    pub fn spacetype(&self) -> (r: SpaceType)
        ensures
            r == self@.spacetype,
    {
        self.spacetype
    }
}

/// A tuple put into a space and then asked for with a template that matches
/// it is what `getp` returns, and the store is as before the `put`: one
/// tuple fewer than after it. This holds unless an older tuple matches too
/// (under any policy but `Stack`), or, under `Queue`, the store was not
/// empty.
pub proof fn lemma_put_then_getp(s: SpaceState, t: Seq<FieldValue>, q: TemplateValue, pick: int)
    requires
        template_matches(q, t),
        0 <= pick,
        s.spacetype == SpaceType::Stack || forall|i: int| 0 <= i < s.store.len() ==> !template_matches(q, #[trigger] s.store[i]),
        s.spacetype == SpaceType::Queue ==> s.store.len() == 0,
    ensures
        selected(s.spacetype, s.store.push(t), q, pick) == Some(s.store.len() as int),
        s.store.push(t)[s.store.len() as int] == t,
        after_look(s.store.push(t), s.store.len() as int, true) == s.store,
        after_look(s.store.push(t), s.store.len() as int, true).len() + 1 == s.store.push(t).len(),
{
    let s2 = s.store.push(t);
    assert(s2.drop_last() =~= s.store);
    assert(s2.remove(s.store.len() as int) =~= s.store);
    if s.spacetype != SpaceType::Stack {
        lemma_no_match_positions(s.store, q);
        assert(match_positions(s2, q) =~= seq![s.store.len() as int]);
    }
}

/// A tuple put into a space and then asked for with `queryp` and a template
/// that matches it is returned, and the store does not change; under the
/// same conditions as for `getp`.
pub proof fn lemma_put_then_queryp(s: SpaceState, t: Seq<FieldValue>, q: TemplateValue, pick: int)
    requires
        template_matches(q, t),
        0 <= pick,
        s.spacetype == SpaceType::Stack || forall|i: int| 0 <= i < s.store.len() ==> !template_matches(q, #[trigger] s.store[i]),
        s.spacetype == SpaceType::Queue ==> s.store.len() == 0,
    ensures
        selected(s.spacetype, s.store.push(t), q, pick) == Some(s.store.len() as int),
        s.store.push(t)[s.store.len() as int] == t,
        after_look(s.store.push(t), s.store.len() as int, false) == s.store.push(t),
{
    lemma_put_then_getp(s, t, q, pick);
}

/// Where no tuple matches, there are no match positions.
proof fn lemma_no_match_positions(s: Seq<Seq<FieldValue>>, q: TemplateValue)
    requires
        forall|i: int| 0 <= i < s.len() ==> !template_matches(q, #[trigger] s[i]),
    ensures
        match_positions(s, q).len() == 0,
    decreases s.len(),
{
    if s.len() > 0 {
        let rest = s.drop_last();
        assert forall|i: int| 0 <= i < rest.len() implies !template_matches(q, #[trigger] rest[i]) by {
            assert(rest[i] == s[i]);
        }
        lemma_no_match_positions(rest, q);
        assert(!template_matches(q, s[s.len() - 1]));
    }
}

/// Under `Queue`, nothing is selected when the oldest tuple does not match,
/// whatever the later tuples are; under `Stack`, likewise with the newest.
pub proof fn lemma_endpoint_policies(s: Seq<Seq<FieldValue>>, q: TemplateValue, pick: int)
    ensures
        (s.len() == 0 || !template_matches(q, s[0])) ==> selected(SpaceType::Queue, s, q, pick) is None,
        (s.len() == 0 || !template_matches(q, s.last())) ==> selected(SpaceType::Stack, s, q, pick) is None,
{
}

/// Under `Sequential`, the selected tuple is the matching one at the lowest
/// position; under `Pile`, the one at the highest; with no matching tuple,
/// neither selects one.
pub proof fn lemma_scanning_policies(s: Seq<Seq<FieldValue>>, q: TemplateValue, pick: int)
    ensures
        (exists|i: int| 0 <= i < s.len() && template_matches(q, #[trigger] s[i])) ==> {
            &&& selected(SpaceType::Sequential, s, q, pick) matches Some(i) && 0 <= i < s.len()
                && template_matches(q, s[i]) && forall|j: int|
                0 <= j < i ==> !template_matches(q, #[trigger] s[j])
            &&& selected(SpaceType::Pile, s, q, pick) matches Some(i) && 0 <= i < s.len()
                && template_matches(q, s[i]) && forall|j: int|
                i < j < s.len() ==> !template_matches(q, #[trigger] s[j])
        },
        (forall|i: int| 0 <= i < s.len() ==> !template_matches(q, #[trigger] s[i])) ==> {
            &&& selected(SpaceType::Sequential, s, q, pick) is None
            &&& selected(SpaceType::Pile, s, q, pick) is None
        },
{
    lemma_match_positions(s, q);
    let p = match_positions(s, q);
    if exists|i: int| 0 <= i < s.len() && template_matches(q, #[trigger] s[i]) {
        let i0 = choose|i: int| 0 <= i < s.len() && template_matches(q, #[trigger] s[i]);
        assert(p.contains(i0));
        assert forall|j: int| 0 <= j < p[0] implies !template_matches(q, #[trigger] s[j]) by {
            if template_matches(q, s[j]) {
                assert(p.contains(j));
                let k = choose|k: int| 0 <= k < p.len() && p[k] == j;
                if k > 0 {
                    assert(p[0] < p[k]);
                }
            }
        }
        assert forall|j: int| p[p.len() - 1] < j < s.len() implies !template_matches(q, #[trigger] s[j]) by {
            if template_matches(q, s[j]) {
                assert(p.contains(j));
                let k = choose|k: int| 0 <= k < p.len() && p[k] == j;
                if k < p.len() - 1 {
                    assert(p[k] < p[p.len() - 1]);
                }
            }
        }
    } else {
        if p.len() > 0 {
            assert(template_matches(q, s[p[0]]));
        }
    }
}

/// After a `put` of a tuple that `q` matches, a waiter that tries `q` again
/// finds a tuple, under every policy but `Queue`; under `Queue`, when the
/// oldest tuple matches `q` or the store was empty.
pub proof fn lemma_put_lets_waiter_find(s: SpaceState, t: Seq<FieldValue>, q: TemplateValue, pick: int)
    requires
        template_matches(q, t),
        0 <= pick,
        s.spacetype == SpaceType::Queue ==> s.store.len() == 0 || template_matches(q, s.store[0]),
    ensures
        selected(s.spacetype, s.store.push(t), q, pick) is Some,
{
    let s2 = s.store.push(t);
    assert(s2.drop_last() =~= s.store);
    assert(match_positions(s2, q).len() > 0);
    if s.store.len() > 0 {
        assert(s2[0] == s.store[0]);
    }
}

/// A tuple that is the only one `q` matches is handed to one reader only:
/// once a destructive read took it, no policy selects anything for `q`.
pub proof fn lemma_taken_only_once(policy: SpaceType, s: Seq<Seq<FieldValue>>, q: TemplateValue, pick: int, pick2: int)
    requires
        match_positions(s, q).len() == 1,
        0 <= pick,
        0 <= pick2,
        selected(policy, s, q, pick) is Some,
    ensures
        selected(policy, after_look(s, selected(policy, s, q, pick)->Some_0, true), q, pick2) is None,
{
    lemma_match_positions(s, q);
    let p = match_positions(s, q);
    let i = selected(policy, s, q, pick)->Some_0;
    assert(0 <= i < s.len() && template_matches(q, s[i]));
    assert(p.contains(i));
    assert(p[0] == i);
    let s2 = s.remove(i);
    assert forall|j: int| 0 <= j < s2.len() implies !template_matches(q, #[trigger] s2[j]) by {
        let j0 = if j < i { j } else { j + 1 };
        assert(s2[j] == s[j0]);
        if template_matches(q, s[j0]) {
            assert(p.contains(j0));
        }
    }
    lemma_no_match_positions(s2, q);
    if s2.len() > 0 {
        assert(!template_matches(q, s2[0]));
        assert(!template_matches(q, s2[s2.len() - 1]));
    }
}

} // verus!
