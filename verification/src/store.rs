//! The variable store and the label map share one shape: a flat, name-keyed
//! table whose mathematical image is a `Map` from character sequences to
//! values.  A name is bound at most once; inserting over an existing name
//! replaces its value in place.
use vstd::prelude::*;

verus! {

broadcast use vstd::map::group_map_axioms;

/// A value a variable can hold: text, or a number carried as the 64 bits of
/// its double-precision encoding.  Once a variable holds one of the two, it
/// can never switch to the other.
#[derive(Debug)]
pub enum Value {
    Str(String),
    Num(u64),
}

/// The mathematical image of a value: the text, or the 64 bits.
pub enum ValueModel {
    VStr(Seq<char>),
    VNum(u64),
}

impl View for Value {
    type V = ValueModel;

    open spec fn view(&self) -> ValueModel {
        match self {
            Value::Str(s) => ValueModel::VStr(s@),
            Value::Num(b) => ValueModel::VNum(*b),
        }
    }
}

/// The image of a whole variable store.
pub open spec fn store_model(m: Map<Seq<char>, Value>) -> Map<Seq<char>, ValueModel> {
    Map::new(|k: Seq<char>| m.dom().contains(k), |k: Seq<char>| m[k]@)
}

pub proof fn lemma_store_model_insert(m: Map<Seq<char>, Value>, k: Seq<char>, v: Value)
    ensures
        store_model(m.insert(k, v)) =~= store_model(m).insert(k, v@),
{
}

/// One binding of a table.
pub struct Entry<V> {
    pub name: String,
    pub val: V,
}

/// The map an entry sequence denotes: later entries would win, though a
/// well-formed table never binds a name twice.
pub open spec fn map_of<V>(entries: Seq<Entry<V>>) -> Map<Seq<char>, V>
    decreases entries.len(),
{
    if entries.len() == 0 {
        Map::empty()
    } else {
        map_of(entries.drop_last()).insert(entries.last().name@, entries.last().val)
    }
}

/// A flat, name-keyed table.
pub struct NamedTable<V> {
    pub entries: Vec<Entry<V>>,
}

impl<V> View for NamedTable<V> {
    type V = Map<Seq<char>, V>;

    open spec fn view(&self) -> Map<Seq<char>, V> {
        map_of(self.entries@)
    }
}

proof fn lemma_map_of_index<V>(entries: Seq<Entry<V>>, i: int)
    requires
        0 <= i < entries.len(),
        forall|p: int, q: int|
            0 <= p < q < entries.len() ==> entries[p].name@ != entries[q].name@,
    ensures
        map_of(entries).contains_key(entries[i].name@),
        map_of(entries)[entries[i].name@] == entries[i].val,
    decreases entries.len(),
{
    if i < entries.len() - 1 {
        let t = entries.drop_last();
        lemma_map_of_index(t, i);
        assert(entries[i].name@ != entries.last().name@);
    }
}

proof fn lemma_map_of_absent<V>(entries: Seq<Entry<V>>, k: Seq<char>)
    requires
        forall|i: int| 0 <= i < entries.len() ==> entries[i].name@ != k,
    ensures
        !map_of(entries).contains_key(k),
    decreases entries.len(),
{
    if entries.len() > 0 {
        lemma_map_of_absent(entries.drop_last(), k);
    }
}

proof fn lemma_map_of_update<V>(entries: Seq<Entry<V>>, i: int, e: Entry<V>)
    requires
        0 <= i < entries.len(),
        e.name@ == entries[i].name@,
        forall|p: int, q: int|
            0 <= p < q < entries.len() ==> entries[p].name@ != entries[q].name@,
    ensures
        map_of(entries.update(i, e)) =~= map_of(entries).insert(e.name@, e.val),
    decreases entries.len(),
{
    let s2 = entries.update(i, e);
    if i == entries.len() - 1 {
        assert(s2.drop_last() =~= entries.drop_last());
    } else {
        let t = entries.drop_last();
        lemma_map_of_update(t, i, e);
        assert(s2.drop_last() =~= t.update(i, e));
        assert(entries.last().name@ != e.name@);
        assert(s2.last() == entries.last());
    }
}

impl<V> NamedTable<V> {
    /// No name is bound twice.
    pub open spec fn wf(&self) -> bool {
        forall|p: int, q: int|
            0 <= p < q < self.entries@.len() ==> self.entries@[p].name@ != self.entries@[q].name@
    }

    /// An empty table.
    pub fn new() -> (r: NamedTable<V>)
        ensures
            r@ == Map::<Seq<char>, V>::empty(),
            r.wf(),
    {
        NamedTable { entries: Vec::new() }
    }

    /// Look a name up.
    pub fn get(&self, name: &String) -> (r: Option<&V>)
        requires
            self.wf(),
        ensures
            match r {
                Some(v) => self@.contains_key(name@) && self@[name@] == *v,
                None => !self@.contains_key(name@),
            },
    {
        let n = self.entries.len();
        let mut i: usize = 0;
        while i < n
            invariant
                i <= n,
                n == self.entries@.len(),
                self.wf(),
                forall|j: int| 0 <= j < i ==> self.entries@[j].name@ != name@,
            decreases n - i,
        {
            if self.entries[i].name.eq(name) {
                proof {
                    lemma_map_of_index(self.entries@, i as int);
                }
                return Some(&self.entries[i].val);
            }
            i = i + 1;
        }
        proof {
            lemma_map_of_absent(self.entries@, name@);
        }
        None
    }

    /// Bind a name, creating it or replacing its value.
    pub fn insert(&mut self, name: String, val: V)
        requires
            old(self).wf(),
        ensures
            final(self).wf(),
            final(self)@ == old(self)@.insert(name@, val),
    {
        let ghost gname = name@;
        let ghost gval = val;
        let n = self.entries.len();
        let mut i: usize = 0;
        while i < n
            invariant
                i <= n,
                n == self.entries@.len(),
                self.entries@ == old(self).entries@,
                self.wf(),
                gname == name@,
                gval == val,
                forall|j: int| 0 <= j < i ==> self.entries@[j].name@ != name@,
            decreases n - i,
        {
            if self.entries[i].name.eq(&name) {
                proof {
                    lemma_map_of_update(self.entries@, i as int, Entry { name: name, val: val });
                }
                self.entries.set(i, Entry { name, val });
                proof {
                    assert(self@ =~= old(self)@.insert(gname, gval));
                }
                return ;
            }
            i = i + 1;
        }
        let ghost prev = self.entries@;
        self.entries.push(Entry { name, val });
        proof {
            assert(self.entries@.drop_last() =~= prev);
            assert(self@ == old(self)@.insert(gname, gval));
        }
    }
}

} // verus!
