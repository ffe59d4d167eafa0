//! The symbol table: label names and the absolute addresses they stand for.
use vstd::prelude::*;

verus! {

/// The mapping that a sequence of definitions builds, each one in turn: a
/// later definition of a name replaces an earlier one.
pub open spec fn table_map(es: Seq<(Seq<char>, u16)>) -> Map<Seq<char>, u16>
    decreases es.len(),
{
    if es.len() == 0 {
        Map::empty()
    } else {
        table_map(es.drop_last()).insert(es.last().0, es.last().1)
    }
}

proof fn lemma_table_map_latest(es: Seq<(Seq<char>, u16)>, k: Seq<char>, i: int)
    requires
        0 <= i < es.len(),
        es[i].0 == k,
        forall|j: int| i < j < es.len() ==> (#[trigger] es[j]).0 != k,
    ensures
        table_map(es).contains_key(k),
        table_map(es)[k] == es[i].1,
    decreases es.len(),
{
    if i < es.len() - 1 {
        let d = es.drop_last();
        assert forall|j: int| i < j < d.len() implies (#[trigger] d[j]).0 != k by {
            assert(d[j] == es[j]);
        }
        lemma_table_map_latest(d, k, i);
    }
}

proof fn lemma_table_map_absent(es: Seq<(Seq<char>, u16)>, k: Seq<char>)
    requires
        forall|j: int| 0 <= j < es.len() ==> (#[trigger] es[j]).0 != k,
    ensures
        !table_map(es).contains_key(k),
    decreases es.len(),
{
    if es.len() > 0 {
        let d = es.drop_last();
        assert forall|j: int| 0 <= j < d.len() implies (#[trigger] d[j]).0 != k by {
            assert(d[j] == es[j]);
        }
        lemma_table_map_absent(d, k);
    }
}

/// Label names and their addresses. A name defined twice keeps the address
/// of its last definition.
pub struct SymbolTable {
    entries: Vec<(String, u16)>,
}

impl SymbolTable {
    /// The definitions in the order they were made, as plain values.
    pub closed spec fn definitions(&self) -> Seq<(Seq<char>, u16)> {
        self.entries@.map_values(|e: (String, u16)| (e.0@, e.1))
    }
}

impl View for SymbolTable {
    type V = Map<Seq<char>, u16>;

    closed spec fn view(&self) -> Map<Seq<char>, u16> {
        table_map(self.definitions())
    }
}

impl SymbolTable {
    /// A table without symbols.
    pub fn new() -> (r: SymbolTable)
        ensures
            r@ == Map::<Seq<char>, u16>::empty(),
    {
        let r = SymbolTable { entries: Vec::new() };
        assert(r.definitions().len() == 0);
        r
    }

    /// Defines `name` as `address`, replacing an earlier definition.
    pub fn insert(&mut self, name: String, address: u16)
        ensures
            final(self)@ == old(self)@.insert(name@, address),
    {
        let ghost before = self.definitions();
        self.entries.push((name, address));
        assert(self.definitions().drop_last() =~= before);
    }

    /// The address of `name`, if it is defined.
    pub fn get(&self, name: &String) -> (r: Option<u16>)
        ensures
            r == (if self@.contains_key(name@) {
                Some(self@[name@])
            } else {
                None
            }),
    {
        let ghost es = self.definitions();
        let mut i: usize = self.entries.len();
        while i > 0
            invariant
                i <= self.entries.len(),
                es == self.definitions(),
                es.len() == self.entries.len(),
                forall|j: int| i <= j < es.len() ==> (#[trigger] es[j]).0 != name@,
            decreases i,
        {
            let k = i - 1;
            assert(es[k as int] == (self.entries[k as int].0@, self.entries[k as int].1));
            if self.entries[k].0 == *name {
                proof {
                    lemma_table_map_latest(es, name@, k as int);
                }
                return Some(self.entries[k].1);
            }
            i = k;
        }
        proof {
            lemma_table_map_absent(es, name@);
        }
        None
    }
}

} // verus!
