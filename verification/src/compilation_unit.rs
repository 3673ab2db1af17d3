//! What name resolution leaves behind for the evaluator: the slots of
//! variables and the table of declared functions.

use vstd::prelude::*;
use crate::definitions::StmtId;
use crate::typings::Type;

verus! {

/// The slot of a variable.
#[derive(Debug, Clone, Copy, PartialEq, Eq, Structural, Hash)]
pub struct VariableIdx {
    pub index: usize,
}

impl VariableIdx {
    pub fn new(index: usize) -> (r: Self)
        ensures
            r.index == index,
    {
        Self { index }
    }

    pub fn as_index(&self) -> (r: usize)
        ensures
            r == self.index,
    {
        self.index
    }
}

/// The place of a function in the table of declared functions.
#[derive(Debug, Clone, Copy, PartialEq, Eq, Structural, Hash)]
pub struct FunctionIdx {
    pub index: usize,
}

impl FunctionIdx {
    pub fn new(index: usize) -> (r: Self)
        ensures
            r.index == index,
    {
        Self { index }
    }

    pub fn as_index(&self) -> (r: usize)
        ensures
            r == self.index,
    {
        self.index
    }

    /// The index that a call site holds until it is resolved.
    pub fn unreachable() -> (r: Self)
        ensures
            r.index == usize::MAX,
    {
        Self { index: usize::MAX }
    }
}

/// A declared function, as the evaluator needs it.
#[derive(Debug)]
pub struct Function {
    pub name: String,
    /// The slots of the parameters, in declaration order.
    pub parameters: Vec<VariableIdx>,
    pub body: Vec<StmtId>,
    pub return_type: Type,
}

/// The first place at or behind `from` where `functions` holds a function
/// called `name`.
pub open spec fn first_named(functions: Seq<Function>, name: Seq<char>, from: int) -> Option<
    FunctionIdx,
>
    decreases functions.len() - from,
{
    if from < 0 || from >= functions.len() {
        None
    } else if functions[from].name@ == name {
        Some(FunctionIdx { index: from as usize })
    } else {
        first_named(functions, name, from + 1)
    }
}

/// What `first_named` finds is a place in `functions`, at or behind `from`,
/// of a function called `name`, and the first such.
pub proof fn lemma_first_named_in_range(functions: Seq<Function>, name: Seq<char>, from: int)
    requires
        0 <= from,
        functions.len() <= usize::MAX,
    ensures
        first_named(functions, name, from) matches Some(found) ==> {
            &&& from <= found.index < functions.len()
            &&& functions[found.index as int].name@ == name
            &&& forall|i: int| from <= i < found.index ==> functions[i].name@ != name
        },
        first_named(functions, name, from) is None ==> forall|i: int|
            from <= i < functions.len() ==> functions[i].name@ != name,
    decreases functions.len() - from,
{
    if 0 <= from < functions.len() && functions[from].name@ != name {
        lemma_first_named_in_range(functions, name, from + 1);
    }
}

/// The declared functions, by index and by name.
#[derive(Debug)]
pub struct GlobalScope {
    pub functions: Vec<Function>,
}

impl GlobalScope {
    /// The function that a name stands for: the first declared under it.
    pub open spec fn lookup(&self, name: Seq<char>) -> Option<FunctionIdx> {
        first_named(self.functions@, name, 0)
    }

    pub fn new() -> (r: Self)
        ensures
            r.functions@ == Seq::<Function>::empty(),
    {
        Self { functions: Vec::new() }
    }

    /// Adds a function behind those already declared.
    pub fn declare_function(
        &mut self,
        name: String,
        parameters: Vec<VariableIdx>,
        body: Vec<StmtId>,
        return_type: Type,
    ) -> (r: FunctionIdx)
        ensures
            r.index == old(self).functions.len(),
            final(self).functions@ == old(self).functions@.push(
                Function { name, parameters, body, return_type },
            ),
    {
        let idx = FunctionIdx::new(self.functions.len());
        self.functions.push(Function { name, parameters, body, return_type });
        idx
    }

    pub fn lookup_function(&self, name: &str) -> (r: Option<FunctionIdx>)
        ensures
            r == self.lookup(name@),
            r matches Some(found) ==> found.index < self.functions.len(),
    {
        let count: usize = self.functions.len();
        proof {
            lemma_first_named_in_range(self.functions@, name@, 0);
        }
        let wanted = name.to_owned();
        let mut i: usize = 0;
        while i < count
            invariant
                i <= count == self.functions.len(),
                wanted@ == name@,
                self.lookup(name@) == first_named(self.functions@, name@, i as int),
            decreases count - i,
        {
            if self.functions[i].name == wanted {
                return Some(FunctionIdx::new(i));
            }
            i = i + 1;
        }
        None
    }

    pub fn get(&self, idx: FunctionIdx) -> (r: &Function)
        requires
            idx.index < self.functions.len(),
        ensures
            *r == self.functions[idx.index as int],
    {
        &self.functions[idx.index]
    }
}

} // verus!
