use vstd::prelude::*;

use crate::error::SysProbeError;

verus! {

/// The map that a sequence of `(name, value)` pairs builds when inserted in order.
pub open spec fn map_of(p: Seq<(Seq<char>, Seq<char>)>) -> Map<Seq<char>, Seq<char>>
    decreases p.len(),
{
    if p.len() == 0 {
        Map::empty()
    } else {
        map_of(p.drop_last()).insert(p.last().0, p.last().1)
    }
}

pub open spec fn unique_names(p: Seq<(Seq<char>, Seq<char>)>) -> bool {
    forall|i: int, j: int| 0 <= i < p.len() && 0 <= j < p.len() && i != j ==> p[i].0 != p[j].0
}

proof fn lemma_map_of_lookup(p: Seq<(Seq<char>, Seq<char>)>, k: Seq<char>)
    requires
        unique_names(p),
    ensures
        map_of(p).contains_key(k) <==> exists|i: int| 0 <= i < p.len() && p[i].0 == k,
        forall|i: int| 0 <= i < p.len() && p[i].0 == k ==> map_of(p)[k] == p[i].1,
    decreases p.len(),
{
    if p.len() > 0 {
        let q = p.drop_last();
        lemma_map_of_lookup(q, k);
        if map_of(p).contains_key(k) && p.last().0 != k {
            let i = choose|i: int| 0 <= i < q.len() && q[i].0 == k;
            assert(p[i].0 == k);
        }
        if exists|i: int| 0 <= i < p.len() && p[i].0 == k {
            let i = choose|i: int| 0 <= i < p.len() && p[i].0 == k;
            if i < q.len() {
                assert(q[i].0 == k);
            }
        }
        assert forall|i: int| 0 <= i < p.len() && p[i].0 == k implies map_of(p)[k] == p[i].1 by {
            if i < q.len() {
                assert(q[i] == p[i]);
            }
        }
    }
}

proof fn lemma_map_of_update(p: Seq<(Seq<char>, Seq<char>)>, i: int, v: Seq<char>)
    requires
        unique_names(p),
        0 <= i < p.len(),
    ensures
        map_of(p.update(i, (p[i].0, v))) == map_of(p).insert(p[i].0, v),
    decreases p.len(),
{
    let k = p[i].0;
    let p2 = p.update(i, (k, v));
    let q = p.drop_last();
    if i == p.len() - 1 {
        assert(p2.drop_last() =~= q);
        assert(map_of(p2) =~= map_of(p).insert(k, v));
    } else {
        assert(p2.drop_last() =~= q.update(i, (k, v)));
        lemma_map_of_update(q, i, v);
        assert(p.last().0 != k);
        assert(map_of(p2) =~= map_of(p).insert(k, v));
    }
}

/// The fields of one result row: each field name the row reports, with its value as text.
#[derive(Debug)]
pub struct FieldMap {
    entries: Vec<(String, String)>,
}

impl View for FieldMap {
    type V = Map<Seq<char>, Seq<char>>;

    closed spec fn view(&self) -> Map<Seq<char>, Seq<char>> {
        map_of(self.pairs())
    }
}

impl FieldMap {
    spec fn pairs(&self) -> Seq<(Seq<char>, Seq<char>)> {
        self.entries@.map_values(|e: (String, String)| (e.0@, e.1@))
    }

    /// Each name stands once.
    pub closed spec fn wf(&self) -> bool {
        unique_names(self.pairs())
    }

    pub fn new() -> (r: FieldMap)
        ensures
            r.wf(),
            r@ == Map::<Seq<char>, Seq<char>>::empty(),
    {
        let r = FieldMap { entries: Vec::new() };
        assert(r.pairs() =~= Seq::empty());
        r
    }

    /// Sets the value of `name`, replacing any earlier value.
    pub fn insert(&mut self, name: String, value: String)
        requires
            old(self).wf(),
        ensures
            final(self).wf(),
            final(self)@ == old(self)@.insert(name@, value@),
    {
        let n = self.entries.len();
        let mut i: usize = 0;
        while i < n
            invariant
                n == self.entries@.len(),
                i <= n,
                self.wf(),
                self.entries@ == old(self).entries@,
                forall|j: int| 0 <= j < i ==> self.pairs()[j].0 != name@,
            decreases n - i,
        {
            if self.entries[i].0 == name {
                let ghost p = self.pairs();
                proof {
                    lemma_map_of_update(p, i as int, value@);
                }
                self.entries.set(i, (name, value));
                assert(self.pairs() =~= p.update(i as int, (p[i as int].0, value@)));
                assert(unique_names(self.pairs())) by {
                    assert forall|a: int, b: int|
                        0 <= a < self.pairs().len() && 0 <= b < self.pairs().len() && a != b
                        implies self.pairs()[a].0 != self.pairs()[b].0 by {
                        assert(self.pairs()[a].0 == p[a].0);
                        assert(self.pairs()[b].0 == p[b].0);
                    }
                }
                return;
            }
            i = i + 1;
        }
        let ghost p = self.pairs();
        self.entries.push((name, value));
        assert(self.pairs() =~= p.push((name@, value@)));
        assert(self.pairs().drop_last() =~= p);
    }

    /// The value of `name`, if the row has that field.
    #[verifier::loop_isolation(false)]
    pub fn get(&self, name: &str) -> (r: Option<&String>)
        requires
            self.wf(),
        ensures
            r is Some <==> self@.contains_key(name@),
            r is Some ==> r->0@ == self@[name@],
    {
        let key = name.to_owned();
        let n = self.entries.len();
        let mut i: usize = 0;
        proof {
            lemma_map_of_lookup(self.pairs(), name@);
        }
        while i < n
            invariant
                n == self.entries@.len(),
                i <= n,
                key@ == name@,
                forall|j: int| 0 <= j < i ==> self.pairs()[j].0 != name@,
            decreases n - i,
        {
            if self.entries[i].0 == key {
                assert(self.pairs()[i as int].0 == name@);
                return Some(&self.entries[i].1);
            }
            i = i + 1;
        }
        None
    }

    /// The value of `name`; a row without that field is a `MissingField` error naming it.
    pub fn require(&self, name: &str) -> (r: Result<&String, SysProbeError>)
        requires
            self.wf(),
        ensures
            r is Ok <==> self@.contains_key(name@),
            r is Ok ==> r->Ok_0@ == self@[name@],
            r is Err ==> (r->Err_0 matches SysProbeError::MissingField(n) && n@ == name@),
    {
        match self.get(name) {
            Some(v) => Ok(v),
            None => Err(SysProbeError::MissingField(name.to_owned())),
        }
    }
}

} // verus!
