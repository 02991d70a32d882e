//! The debugger's variable index.
//!
//! A debug session reports variables scope by scope; a variable that has
//! children carries a non-zero container reference under which its children
//! are fetched later. [`ScopeVariableIndex`] keeps the flat, ordered list
//! the list view renders: fetching the children of a container splices them
//! into the list directly after their parent.

use vstd::prelude::*;

verus! {

/// One variable as the debug adapter reports it.
#[derive(Clone, Debug, PartialEq)]
pub struct Variable {
    pub name: String,
    pub value: String,
    pub type_: Option<String>,
    pub presentation_hint: Option<String>,
    pub evaluate_name: Option<String>,
    pub variables_reference: u64,
    pub named_variables: Option<u64>,
    pub indexed_variables: Option<u64>,
    pub memory_reference: Option<String>,
}

/// A variable placed in the rendered list: the variable itself, its
/// indentation depth and the container it was fetched under.
#[derive(Clone, Debug, PartialEq)]
pub struct VariableContainer {
    pub variable: Variable,
    pub depth: usize,
    pub container_reference: u64,
}

/// The position directly after the first variable whose children the given
/// container reference names, or the end of the list if no variable carries
/// it.
pub open spec fn insert_position(entries: Seq<VariableContainer>, reference: u64) -> int
    decreases entries.len(),
{
    if entries.len() == 0 {
        0
    } else if entries[0].variable.variables_reference == reference {
        1
    } else {
        1 + insert_position(entries.drop_first(), reference)
    }
}

/// The flat variable list of one scope.
pub struct ScopeVariableIndex {
    variables: Vec<VariableContainer>,
    fetched_ids: Vec<u64>,
}

impl ScopeVariableIndex {
    /// The indexed variables, in list order.
    pub closed spec fn spec_variables(self) -> Seq<VariableContainer> {
        self.variables@
    }

    /// The container references whose children have been fetched.
    pub closed spec fn spec_fetched_ids(self) -> Seq<u64> {
        self.fetched_ids@
    }

    /// An empty index: no variables, nothing fetched.
    pub fn new() -> (r: ScopeVariableIndex)
        ensures
            r.spec_variables() == Seq::<VariableContainer>::empty(),
            r.spec_fetched_ids() == Seq::<u64>::empty(),
    {
        ScopeVariableIndex { variables: Vec::new(), fetched_ids: Vec::new() }
    }

    /// The indexed variables, in list order.
    pub fn variables(&self) -> (r: &Vec<VariableContainer>)
        ensures
            r@ == self.spec_variables(),
    {
        &self.variables
    }

    /// The container references whose children have been fetched, in fetch
    /// order.
    pub fn fetched_ids(&self) -> (r: &Vec<u64>)
        ensures
            r@ == self.spec_fetched_ids(),
    {
        &self.fetched_ids
    }

    /// Records the variables fetched under one container reference. They
    /// are spliced in directly after the variable that carries the
    /// reference — the entry the user expanded — or appended at the end if
    /// none does, as for a scope's own top-level variables; the reference
    /// is recorded as fetched.
    pub fn add_variables(&mut self, reference: u64, new_variables: Vec<VariableContainer>)
        ensures
            final(self).spec_fetched_ids() == old(self).spec_fetched_ids().push(reference),
            ({
                let position = insert_position(old(self).spec_variables(), reference);
                final(self).spec_variables() == old(self).spec_variables().subrange(0, position)
                    + new_variables@ + old(self).spec_variables().subrange(
                    position,
                    old(self).spec_variables().len() as int,
                )
            }),
    {
        let ghost pre = self.variables@;
        let position = self.find_insert_position(reference);
        let mut tail = self.variables.split_off(position);
        let mut middle = new_variables;
        self.variables.append(&mut middle);
        self.variables.append(&mut tail);
        self.fetched_ids.push(reference);
        proof {
            assert(final(self).spec_variables() =~= pre.subrange(
                0,
                insert_position(pre, reference),
            ) + new_variables@ + pre.subrange(
                insert_position(pre, reference),
                pre.len() as int,
            ));
        }
    }

    /// The position at which variables fetched under `reference` are
    /// spliced in: directly after the first variable carrying the
    /// reference, or the end of the list.
    fn find_insert_position(&self, reference: u64) -> (r: usize)
        ensures
            r == insert_position(self.spec_variables(), reference),
            r <= self.spec_variables().len(),
    {
        let ghost entries = self.variables@;
        let mut i: usize = 0;
        proof {
            assert(entries.skip(0) =~= entries);
        }
        while i < self.variables.len()
            invariant
                i <= entries.len(),
                entries == self.variables@,
                insert_position(entries, reference) == i + insert_position(
                    entries.skip(i as int),
                    reference,
                ),
            decreases entries.len() - i,
        {
            let ghost rest = entries.skip(i as int);
            proof {
                assert(rest[0] == entries[i as int]);
                assert(rest.drop_first() =~= entries.skip(i as int + 1));
            }
            if self.variables[i].variable.variables_reference == reference {
                return i + 1;
            }
            i = i + 1;
        }
        proof {
            assert(entries.skip(entries.len() as int) =~= Seq::<VariableContainer>::empty());
        }
        i
    }
}

} // verus!
