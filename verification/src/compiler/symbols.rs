//! The symbol table: the variables of a program by name. No name occurs twice.

use vstd::prelude::*;
use vstd::string::*;
use super::var::VariableType;

verus! {

/// A variable with its name.
#[derive(Debug)]
pub struct Symbol {
    /// The name of the variable.
    pub name: String,
    /// What is known of the variable.
    pub variable: VariableType,
}

/// The variables of a program, in the order in which they were declared.
#[derive(Debug)]
pub struct SymbolTable {
    /// The variables.
    pub entries: Vec<Symbol>,
}

/// Whether the `i`-th of the entries has the name `key`.
pub open spec fn named(entries: Seq<Symbol>, i: int, key: Seq<char>) -> bool {
    0 <= i < entries.len() && entries[i].name@ == key
}

impl SymbolTable {
    /// No name occurs twice.
    pub open spec fn wf(&self) -> bool {
        forall|i: int, j: int|
            0 <= i < self.entries@.len() && 0 <= j < self.entries@.len() && self.entries@[i].name@
                == self.entries@[j].name@ ==> i == j
    }

    /// The table as a map from names to variables.
    pub open spec fn view(&self) -> Map<Seq<char>, VariableType> {
        Map::new(
            |key: Seq<char>| exists|i: int| named(self.entries@, i, key),
            |key: Seq<char>| self.entries@[choose|i: int| named(self.entries@, i, key)].variable,
        )
    }

    /// An empty table.
    pub fn new() -> (r: Self)
        ensures
            r.wf(),
            r@ == Map::<Seq<char>, VariableType>::empty(),
    {
        let r = SymbolTable { entries: Vec::new() };
        assert(r@ =~= Map::<Seq<char>, VariableType>::empty());
        r
    }

    /// The number of variables.
    pub fn len(&self) -> (r: usize)
        ensures
            r == self.entries@.len(),
    {
        self.entries.len()
    }

    /// The place of the variable `name` among the entries.
    pub fn position(&self, name: &str) -> (r: Option<usize>)
        requires
            self.wf(),
        ensures
            match r {
                Some(i) => named(self.entries@, i as int, name@) && self@.contains_key(name@) && self@[name@]
                    == self.entries@[i as int].variable,
                None => !self@.contains_key(name@) && forall|j: int| !named(self.entries@, j, name@),
            },
    {
        let key = String::from_str(name);
        let mut i: usize = 0;
        while i < self.entries.len()
            invariant
                self.wf(),
                i <= self.entries@.len(),
                key@ == name@,
                forall|j: int| 0 <= j < i ==> !named(self.entries@, j, name@),
            decreases self.entries@.len() - i,
        {
            if self.entries[i].name == key {
                proof {
                    assert(named(self.entries@, i as int, name@));
                    let j = choose|j: int| named(self.entries@, j, name@);
                    assert(j == i);
                }
                return Some(i);
            }
            i = i + 1;
        }
        None
    }

    /// Whether the table holds a variable `name`.
    pub fn contains_key(&self, name: &str) -> (r: bool)
        requires
            self.wf(),
        ensures
            r == self@.contains_key(name@),
    {
        self.position(name).is_some()
    }

    /// What the table knows of the variable `name`.
    pub fn get(&self, name: &str) -> (r: Option<VariableType>)
        requires
            self.wf(),
        ensures
            r == if self@.contains_key(name@) {
                Some(self@[name@])
            } else {
                None
            },
    {
        match self.position(name) {
            Some(i) => Some(self.entries[i].variable),
            None => None,
        }
    }

    /// Records `variable` under `name`, in place of what was known of that name before.
    pub fn insert(&mut self, name: String, variable: VariableType)
        requires
            old(self).wf(),
        ensures
            final(self).wf(),
            final(self)@ == old(self)@.insert(name@, variable),
    {
        let ghost before = self.entries@;
        match self.position(name.as_str()) {
            Some(i) => {
                let symbol = Symbol { name, variable };
                self.entries[i] = symbol;
                assert(self.entries@ == before.update(i as int, symbol));
                assert forall|key: Seq<char>, j: int| named(self.entries@, j, key) <==> named(
                    before,
                    j,
                    key,
                ) by {}
                assert forall|a: int, b: int|
                    0 <= a < self.entries@.len() && 0 <= b < self.entries@.len()
                        && self.entries@[a].name@ == self.entries@[b].name@ implies a == b by {
                    assert(before[a].name@ == before[b].name@);
                }
                assert forall|key: Seq<char>| #[trigger]
                    self@.contains_key(key) <==> old(self)@.insert(name@, variable).contains_key(key) by {
                    if self@.contains_key(key) {
                        let j = choose|j: int| named(self.entries@, j, key);
                        assert(named(before, j, key));
                    }
                    if old(self)@.contains_key(key) {
                        let j = choose|j: int| named(before, j, key);
                        assert(named(self.entries@, j, key));
                    }
                    if key == name@ {
                        assert(named(self.entries@, i as int, key));
                    }
                }
                assert forall|key: Seq<char>| #[trigger] self@.contains_key(key) implies self@[key]
                    == old(self)@.insert(name@, variable)[key] by {
                    let j = choose|j: int| named(self.entries@, j, key);
                    assert(named(before, j, key));
                    let k = choose|k: int| named(before, k, key);
                    assert(j == k);
                    if key == name@ {
                        assert(j == i);
                    }
                }
                assert(self@ =~= old(self)@.insert(name@, variable));
            },
            None => {
                let symbol = Symbol { name, variable };
                self.entries.push(symbol);
                let ghost last = before.len() as int;
                assert(self.entries@ == before.push(symbol));
                assert(named(self.entries@, last, name@));
                assert forall|a: int, b: int|
                    0 <= a < self.entries@.len() && 0 <= b < self.entries@.len()
                        && self.entries@[a].name@ == self.entries@[b].name@ implies a == b by {
                    if a < last && b < last {
                        assert(before[a].name@ == before[b].name@);
                    } else if a < last {
                        assert(named(before, a, name@));
                    } else if b < last {
                        assert(named(before, b, name@));
                    }
                }
                assert forall|key: Seq<char>, j: int| named(before, j, key) implies named(
                    self.entries@,
                    j,
                    key,
                ) by {}
                assert forall|key: Seq<char>| #[trigger]
                    self@.contains_key(key) <==> old(self)@.insert(name@, variable).contains_key(key) by {
                    if self@.contains_key(key) {
                        let j = choose|j: int| named(self.entries@, j, key);
                        if j < last {
                            assert(named(before, j, key));
                        }
                    }
                    if old(self)@.contains_key(key) {
                        let j = choose|j: int| named(before, j, key);
                        assert(named(self.entries@, j, key));
                    }
                }
                assert forall|key: Seq<char>| #[trigger] self@.contains_key(key) implies self@[key]
                    == old(self)@.insert(name@, variable)[key] by {
                    let j = choose|j: int| named(self.entries@, j, key);
                    if key == name@ {
                        assert(j == last);
                    } else {
                        assert(named(before, j, key));
                        let k = choose|k: int| named(before, k, key);
                        assert(named(self.entries@, k, key));
                        assert(j == k);
                    }
                }
                assert(self@ =~= old(self)@.insert(name@, variable));
            },
        }
    }
}

} // verus!
