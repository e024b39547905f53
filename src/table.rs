//! The named rule table: insertion-ordered, one entry per name.
use vstd::prelude::*;
use crate::rule::{Rule, RuleView};

verus! {

/// The model of a rule table: (name, rule) pairs in insertion order.
pub type TableView = Seq<(Seq<char>, RuleView)>;

/// No name occurs twice.
pub open spec fn keys_distinct(t: TableView) -> bool {
    forall|i: int, j: int| 0 <= i < t.len() && 0 <= j < t.len() && i != j ==> t[i].0 != t[j].0
}

pub open spec fn has_key(t: TableView, k: Seq<char>) -> bool {
    exists|i: int| 0 <= i < t.len() && t[i].0 == k
}

/// The position that holds name `k`, where there is one.
pub open spec fn key_pos(t: TableView, k: Seq<char>) -> int {
    choose|i: int| 0 <= i < t.len() && t[i].0 == k
}

/// The rule registered under `k`.
pub open spec fn table_get(t: TableView, k: Seq<char>) -> RuleView {
    t[key_pos(t, k)].1
}

/// Registering `v` under `k`: a name already present keeps its position and
/// takes the new rule; a new name goes last.
pub open spec fn table_insert(t: TableView, k: Seq<char>, v: RuleView) -> TableView {
    if has_key(t, k) {
        t.update(key_pos(t, k), (k, v))
    } else {
        t.push((k, v))
    }
}

pub proof fn lemma_insert(t: TableView, k: Seq<char>, v: RuleView)
    requires
        keys_distinct(t),
    ensures
        keys_distinct(table_insert(t, k, v)),
        has_key(table_insert(t, k, v), k),
        table_get(table_insert(t, k, v), k) == v,
        forall|k2: Seq<char>| has_key(t, k2) ==> #[trigger] has_key(table_insert(t, k, v), k2),
        table_insert(t, k, v).len() >= 1,
        t.len() > 0 ==> table_insert(t, k, v)[0].0 == t[0].0,
{
    let r = table_insert(t, k, v);
    if has_key(t, k) {
        let p = key_pos(t, k);
        assert(r[p].0 == k);
    } else {
        assert(r[t.len() as int].0 == k);
    }
    let q = key_pos(r, k);
    assert(r[q].0 == k);
    assert forall|k2: Seq<char>| has_key(t, k2) implies #[trigger] has_key(r, k2) by {
        let i = choose|i: int| 0 <= i < t.len() && t[i].0 == k2;
        assert(r[i].0 == k2);
    }
}

pub proof fn lemma_insert_other(t: TableView, k: Seq<char>, v: RuleView, k2: Seq<char>)
    requires
        keys_distinct(t),
        has_key(t, k2),
        k2 != k,
    ensures
        table_get(table_insert(t, k, v), k2) == table_get(t, k2),
{
    lemma_insert(t, k, v);
    let r = table_insert(t, k, v);
    let p = key_pos(t, k2);
    assert(r[p].0 == k2);
    let q = key_pos(r, k2);
    assert(r[q].0 == k2);
    assert(q == p);
}

/// An insertion-ordered map from rule names to rules.
pub struct RuleTable {
    pub entries: Vec<(String, Rule)>,
}

impl View for RuleTable {
    type V = TableView;

    open spec fn view(&self) -> TableView {
        self.entries@.map_values(|e: (String, Rule)| (e.0@, e.1@))
    }
}

impl RuleTable {
    pub open spec fn wf(&self) -> bool {
        keys_distinct(self@)
    }

    pub fn new() -> (r: RuleTable)
        ensures
            r@ == Seq::<(Seq<char>, RuleView)>::empty(),
            r.wf(),
    {
        let r = RuleTable { entries: Vec::new() };
        assert(r@ =~= Seq::<(Seq<char>, RuleView)>::empty());
        r
    }

    pub fn len(&self) -> (r: usize)
        ensures
            r == self@.len(),
    {
        self.entries.len()
    }

    /// The position of name `k`, if it is registered.
    pub fn position(&self, k: &String) -> (r: Option<usize>)
        requires
            self.wf(),
        ensures
            r.is_some() == has_key(self@, k@),
            r matches Some(i) ==> i == key_pos(self@, k@) && i < self@.len(),
    {
        let mut i: usize = 0;
        while i < self.entries.len()
            invariant
                i <= self.entries.len(),
                self.wf(),
                forall|j: int| 0 <= j < i ==> self@[j].0 != k@,
            decreases self.entries.len() - i,
        {
            if self.entries[i].0 == *k {
                proof {
                    assert(self@[i as int].0 == k@);
                    assert(has_key(self@, k@));
                    let q = key_pos(self@, k@);
                    assert(self@[q].0 == k@);
                    assert(q == i);
                }
                return Some(i);
            }
            i = i + 1;
        }
        None
    }

    /// Registers `v` under `k`, replacing in place any rule of that name.
    pub fn insert(&mut self, k: String, v: Rule)
        requires
            old(self).wf(),
        ensures
            final(self).wf(),
            final(self)@ == table_insert(old(self)@, k@, v@),
    {
        proof { lemma_insert(self@, k@, v@); }
        let ghost kv = k@;
        let ghost vv = v@;
        match self.position(&k) {
            Some(i) => {
                self.entries.set(i, (k, v));
            },
            None => {
                self.entries.push((k, v));
            },
        }
        assert(self@ =~= table_insert(old(self)@, kv, vv));
    }

    /// A copy of the rule registered under `k`.
    pub fn get(&self, k: &String) -> (r: Option<Rule>)
        requires
            self.wf(),
        ensures
            r.is_some() == has_key(self@, k@),
            r matches Some(x) ==> x@ == table_get(self@, k@),
    {
        match self.position(k) {
            Some(i) => Some(self.entries[i].1.copy()),
            None => None,
        }
    }
}

} // verus!
