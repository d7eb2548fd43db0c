//! The modules loaded so far, by name.

use vstd::prelude::*;
use crate::compiler::bytecode::FunctionChunk;

verus! {

/// A loaded module: its name and its compiled top-level code.
pub struct Module {
    pub name: String,
    pub chunk: FunctionChunk,
}

pub struct ModuleRegistry {
    loaded: Vec<(String, Module)>,
}

/// The map made by a list of registrations, a later one for a name replacing an earlier one.
pub open spec fn registry_map(es: Seq<(String, Module)>) -> Map<Seq<char>, Module>
    decreases es.len(),
{
    if es.len() == 0 {
        Map::empty()
    } else {
        registry_map(es.drop_last()).insert(es.last().0@, es.last().1)
    }
}

proof fn lemma_registry_found(es: Seq<(String, Module)>, i: int, k: Seq<char>)
    requires
        0 <= i < es.len(),
        es[i].0@ == k,
        forall|j: int| i < j < es.len() ==> es[j].0@ != k,
    ensures
        registry_map(es).contains_key(k),
        registry_map(es)[k] == es[i].1,
    decreases es.len(),
{
    if i < es.len() - 1 {
        lemma_registry_found(es.drop_last(), i, k);
    }
}

proof fn lemma_registry_absent(es: Seq<(String, Module)>, k: Seq<char>)
    requires
        forall|j: int| 0 <= j < es.len() ==> es[j].0@ != k,
    ensures
        !registry_map(es).contains_key(k),
    decreases es.len(),
{
    if es.len() > 0 {
        lemma_registry_absent(es.drop_last(), k);
    }
}

impl View for ModuleRegistry {
    type V = Map<Seq<char>, Module>;

    closed spec fn view(&self) -> Map<Seq<char>, Module> {
        registry_map(self.loaded@)
    }
}

impl ModuleRegistry {
    pub fn new() -> (r: ModuleRegistry)
        ensures
            r@ == Map::<Seq<char>, Module>::empty(),
    {
        let r = ModuleRegistry { loaded: Vec::new() };
        assert(r@ =~= Map::<Seq<char>, Module>::empty());
        r
    }

    /// Records `module` under `name`, replacing an earlier module of that name.
    pub fn register(&mut self, name: String, module: Module)
        ensures
            final(self)@ == old(self)@.insert(name@, module),
    {
        let ghost before = self.loaded@;
        self.loaded.push((name, module));
        assert(self.loaded@.drop_last() =~= before);
    }

    /// The module registered under `name`.
    pub fn get(&self, name: &str) -> (r: Option<&Module>)
        ensures
            match r {
                Some(m) => self@.contains_key(name@) && *m == self@[name@],
                None => !self@.contains_key(name@),
            },
    {
        let k = name.to_owned();
        let mut i = self.loaded.len();
        while i > 0
            invariant
                i <= self.loaded@.len(),
                k@ == name@,
                forall|j: int| i <= j < self.loaded@.len() ==> self.loaded@[j].0@ != k@,
            decreases i,
        {
            i = i - 1;
            if self.loaded[i].0 == k {
                proof {
                    lemma_registry_found(self.loaded@, i as int, k@);
                }
                return Some(&self.loaded[i].1);
            }
        }
        proof {
            lemma_registry_absent(self.loaded@, k@);
        }
        None
    }
}

/// A lookup finds the module that the last registration under that name
/// recorded, and a registration leaves the other names as they were.
pub proof fn law_get_after_register(m: Map<Seq<char>, Module>, name: Seq<char>, module: Module, other: Seq<char>)
    requires
        other != name,
    ensures
        m.insert(name, module).contains_key(name),
        m.insert(name, module)[name] == module,
        m.insert(name, module).contains_key(other) == m.contains_key(other),
        m.contains_key(other) ==> m.insert(name, module)[other] == m[other],
{
}

} // verus!
