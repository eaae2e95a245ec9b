use vstd::prelude::*;

verus! {

/// Whether no two entries have the same name.
pub open spec fn names_unique<V>(s: Seq<(String, V)>) -> bool {
    forall|i: int, j: int| 0 <= i < s.len() && 0 <= j < s.len() && #[trigger] s[i].0@ == #[trigger] s[j].0@ ==> i == j
}

/// The map from name to value that a sequence of entries holds.
pub open spec fn entries_map<V>(s: Seq<(String, V)>) -> Map<Seq<char>, V> {
    Map::new(
        |k: Seq<char>| exists|i: int| 0 <= i < s.len() && #[trigger] s[i].0@ == k,
        |k: Seq<char>| s[choose|i: int| 0 <= i < s.len() && #[trigger] s[i].0@ == k].1,
    )
}

/// Values under unique names.
pub struct NameTable<V> {
    entries: Vec<(String, V)>,
}

impl<V> NameTable<V> {
    /// The names are unique.
    pub closed spec fn wf(&self) -> bool {
        names_unique(self.entries@)
    }

    /// The map from name to value.
    pub closed spec fn map(&self) -> Map<Seq<char>, V> {
        entries_map(self.entries@)
    }

    /// An empty table.
    pub fn new() -> (r: NameTable<V>)
        ensures
            r.wf(),
            r.map() == Map::<Seq<char>, V>::empty(),
    {
        let r = NameTable { entries: Vec::new() };
        assert(r.map() =~= Map::<Seq<char>, V>::empty());
        r
    }

    /// The position of the entry named `name`.
    fn find(&self, name: &String) -> (r: Option<usize>)
        requires
            self.wf(),
        ensures
            match r {
                Some(i) => i < self.entries@.len() && self.entries@[i as int].0@ == name@,
                None => !self.map().dom().contains(name@),
            },
    {
        let mut i: usize = 0;
        while i < self.entries.len()
            invariant
                i <= self.entries@.len(),
                forall|j: int| 0 <= j < i ==> self.entries@[j].0@ != name@,
            decreases self.entries@.len() - i,
        {
            if self.entries[i].0 == *name {
                return Some(i);
            }
            i = i + 1;
        }
        None
    }

    /// The value named `name`, if any.
    pub fn get(&self, name: &String) -> (r: Option<&V>)
        requires
            self.wf(),
        ensures
            match r {
                Some(v) => self.map().dom().contains(name@) && *v == self.map()[name@],
                None => !self.map().dom().contains(name@),
            },
    {
        match self.find(name) {
            Some(i) => {
                let ghost k = name@;
                assert(self.map().dom().contains(k));
                let ghost c = choose|j: int| 0 <= j < self.entries@.len() && #[trigger] self.entries@[j].0@ == k;
                assert(c == i);
                Some(&self.entries[i].1)
            },
            None => None,
        }
    }

    /// Puts `value` under `name`; returns the value it replaces, if any.
    pub fn insert(&mut self, name: String, value: V) -> (r: Option<V>)
        requires
            old(self).wf(),
        ensures
            final(self).wf(),
            final(self).map() == old(self).map().insert(name@, value),
            match r {
                Some(v) => old(self).map().dom().contains(name@) && v == old(self).map()[name@],
                None => !old(self).map().dom().contains(name@),
            },
    {
        let ghost k = name@;
        match self.find(&name) {
            Some(i) => {
                let ghost s = self.entries@;
                let ghost c = choose|j: int| 0 <= j < s.len() && #[trigger] s[j].0@ == k;
                assert(c == i);
                let mut entry = (name, value);
                std::mem::swap(&mut entry, &mut self.entries[i]);
                let ghost s2 = self.entries@;
                assert(s2 == s.update(i as int, (s2[i as int].0, value)));
                assert(names_unique(s2));
                assert forall|key: Seq<char>| #[trigger] self.map().dom().contains(key) == old(self).map().insert(k, value).dom().contains(key) by {
                    if key != k && old(self).map().dom().contains(key) {
                        let j = choose|j: int| 0 <= j < s.len() && #[trigger] s[j].0@ == key;
                        assert(s2[j].0@ == key);
                    }
                    if self.map().dom().contains(key) && key != k {
                        let j = choose|j: int| 0 <= j < s2.len() && #[trigger] s2[j].0@ == key;
                        assert(j != i);
                        assert(s[j].0@ == key);
                    }
                }
                assert(self.map() =~= old(self).map().insert(k, value));
                Some(entry.1)
            },
            None => {
                let ghost s = self.entries@;
                self.entries.push((name, value));
                let ghost s2 = self.entries@;
                assert forall|a: int, b: int| 0 <= a < s2.len() && 0 <= b < s2.len() && #[trigger] s2[a].0@ == #[trigger] s2[b].0@ implies a == b by {
                    if a < s.len() && b == s.len() {
                        assert(s[a].0@ == k);
                    }
                    if b < s.len() && a == s.len() {
                        assert(s[b].0@ == k);
                    }
                }
                assert forall|key: Seq<char>| #[trigger] self.map().dom().contains(key) == old(self).map().insert(k, value).dom().contains(key) by {
                    assert(s2[s.len() as int].0@ == k);
                    if key != k && old(self).map().dom().contains(key) {
                        let j = choose|j: int| 0 <= j < s.len() && #[trigger] s[j].0@ == key;
                        assert(s2[j].0@ == key);
                    }
                    if self.map().dom().contains(key) && key != k {
                        let j = choose|j: int| 0 <= j < s2.len() && #[trigger] s2[j].0@ == key;
                        assert(s[j].0@ == key);
                    }
                }
                assert forall|key: Seq<char>| #[trigger] self.map().dom().contains(key) implies self.map()[key] == old(self).map().insert(k, value)[key] by {
                    let j = choose|j: int| 0 <= j < s2.len() && #[trigger] s2[j].0@ == key;
                    if key != k {
                        assert(s[j].0@ == key);
                        let j0 = choose|j: int| 0 <= j < s.len() && #[trigger] s[j].0@ == key;
                        assert(s2[j0].0@ == key);
                    } else {
                        assert(s2[s.len() as int].0@ == k);
                    }
                }
                assert(self.map() =~= old(self).map().insert(k, value));
                None
            },
        }
    }

    /// Takes out the value named `name`, if any.
    pub fn remove(&mut self, name: &String) -> (r: Option<V>)
        requires
            old(self).wf(),
        ensures
            final(self).wf(),
            final(self).map() == old(self).map().remove(name@),
            match r {
                Some(v) => old(self).map().dom().contains(name@) && v == old(self).map()[name@],
                None => !old(self).map().dom().contains(name@),
            },
    {
        let ghost k = name@;
        match self.find(name) {
            Some(i) => {
                let ghost s = self.entries@;
                let ghost c = choose|j: int| 0 <= j < s.len() && #[trigger] s[j].0@ == k;
                assert(c == i);
                let entry = self.entries.remove(i);
                let ghost s2 = self.entries@;
                assert(s2 == s.remove(i as int));
                assert forall|a: int, b: int| 0 <= a < s2.len() && 0 <= b < s2.len() && #[trigger] s2[a].0@ == #[trigger] s2[b].0@ implies a == b by {
                    let a0 = if a < i { a } else { a + 1 };
                    let b0 = if b < i { b } else { b + 1 };
                    assert(s2[a] == s[a0]);
                    assert(s2[b] == s[b0]);
                }
                assert forall|key: Seq<char>| #[trigger] self.map().dom().contains(key) == old(self).map().remove(k).dom().contains(key) by {
                    if key != k && old(self).map().dom().contains(key) {
                        let j = choose|j: int| 0 <= j < s.len() && #[trigger] s[j].0@ == key;
                        assert(j != i);
                        let j2 = if j < i { j } else { j - 1 };
                        assert(s2[j2] == s[j]);
                    }
                    if self.map().dom().contains(key) {
                        let j = choose|j: int| 0 <= j < s2.len() && #[trigger] s2[j].0@ == key;
                        let j0 = if j < i { j } else { j + 1 };
                        assert(s2[j] == s[j0]);
                        assert(j0 != i);
                    }
                }
                assert forall|key: Seq<char>| #[trigger] self.map().dom().contains(key) implies self.map()[key] == old(self).map().remove(k)[key] by {
                    let j = choose|j: int| 0 <= j < s2.len() && #[trigger] s2[j].0@ == key;
                    let j0 = if j < i { j } else { j + 1 };
                    assert(s2[j] == s[j0]);
                    let jo = choose|j: int| 0 <= j < s.len() && #[trigger] s[j].0@ == key;
                    assert(jo == j0);
                }
                assert(self.map() =~= old(self).map().remove(k));
                Some(entry.1)
            },
            None => {
                assert(self.map() =~= old(self).map().remove(k));
                None
            },
        }
    }
}

/// Named spaces, and the gates that serve them, each under a unique name.
///
/// The spaces and gates are handles chosen by the caller, for a space
/// shared between threads and for a running gate.
pub struct Repository<S, G> {
    spaces: NameTable<S>,
    gates: NameTable<G>,
}

impl<S, G> Repository<S, G> {
    /// The names are unique in both tables.
    pub closed spec fn wf(&self) -> bool {
        self.spaces.wf() && self.gates.wf()
    }

    /// The spaces by name.
    pub closed spec fn space_map(&self) -> Map<Seq<char>, S> {
        self.spaces.map()
    }

    /// The gates by name.
    pub closed spec fn gate_map(&self) -> Map<Seq<char>, G> {
        self.gates.map()
    }

    /// A repository with no space and no gate.
    pub fn new() -> (r: Repository<S, G>)
        ensures
            r.wf(),
            r.space_map() == Map::<Seq<char>, S>::empty(),
            r.gate_map() == Map::<Seq<char>, G>::empty(),
    {
        Repository { spaces: NameTable::new(), gates: NameTable::new() }
    }

    /// Registers `space` under `name`, in place of any space of that name.
    pub fn add_space(&mut self, name: String, space: S)
        requires
            old(self).wf(),
        ensures
            final(self).wf(),
            final(self).space_map() == old(self).space_map().insert(name@, space),
            final(self).gate_map() == old(self).gate_map(),
    {
        let _ = self.spaces.insert(name, space);
    }

    /// The space registered under `name`, if any.
    pub fn get_space(&self, name: String) -> (r: Option<&S>)
        requires
            self.wf(),
        ensures
            match r {
                Some(s) => self.space_map().dom().contains(name@) && *s == self.space_map()[name@],
                None => !self.space_map().dom().contains(name@),
            },
    {
        self.spaces.get(&name)
    }

    /// Forgets the space registered under `name`, if any.
    pub fn del_space(&mut self, name: String)
        requires
            old(self).wf(),
        ensures
            final(self).wf(),
            final(self).space_map() == old(self).space_map().remove(name@),
            final(self).gate_map() == old(self).gate_map(),
    {
        let _ = self.spaces.remove(&name);
    }

    /// Registers `gate` under `name`; returns any server it replaces, which the
    /// caller is to close.
    pub fn add_gate(&mut self, name: String, gate: G) -> (r: Option<G>)
        requires
            old(self).wf(),
        ensures
            final(self).wf(),
            final(self).gate_map() == old(self).gate_map().insert(name@, gate),
            final(self).space_map() == old(self).space_map(),
            match r {
                Some(g) => old(self).gate_map().dom().contains(name@) && g == old(self).gate_map()[name@],
                None => !old(self).gate_map().dom().contains(name@),
            },
    {
        self.gates.insert(name, gate)
    }

    /// Takes out the server registered under `name`, for the caller to shut it
    /// down; nothing happens for an unknown name.
    pub fn close_gate(&mut self, name: String) -> (r: Option<G>)
        requires
            old(self).wf(),
        ensures
            final(self).wf(),
            final(self).gate_map() == old(self).gate_map().remove(name@),
            final(self).space_map() == old(self).space_map(),
            match r {
                Some(g) => old(self).gate_map().dom().contains(name@) && g == old(self).gate_map()[name@],
                None => !old(self).gate_map().dom().contains(name@),
            },
    {
        self.gates.remove(&name)
    }
}

} // verus!
