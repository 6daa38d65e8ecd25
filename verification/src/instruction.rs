//! Operands and statements. An operand resolves to an identifier (`Deref`); a
//! statement advances the program state by one instruction (`Execute`). Both
//! are described by a spec function of the state they run against, which the
//! executable method is held to.

use crate::error::ExecutionError;
use crate::memory::{Memory, MemoryID, MemoryView};
use crate::scope::{Bindings, VariableDictionary};
use vstd::prelude::*;

verus! {

/// A statement: one step of the program.
pub trait Execute {
    /// The state that executing this statement against `memory` and
    /// `variables` leads to, or the fault that stops it.
    spec fn effect(&self, memory: MemoryView, variables: Bindings) -> Result<
        (MemoryView, Bindings),
        ExecutionError,
    >;

    /// A statement leaves a well-formed memory well formed.
    proof fn lemma_effect_keeps_wf(&self, memory: MemoryView, variables: Bindings)
        requires
            memory.wf(),
        ensures
            self.effect(memory, variables) matches Ok((m, _)) ==> m.wf(),
    ;

    /// Executes the statement. It either completes, and the state is the one
    /// `effect` gives, or reports the fault `effect` gives and changes nothing.
    /// A well-formed memory stays well formed.
    fn execute(
        &self,
        memory: &mut Memory,
        variables: &mut VariableDictionary,
    ) -> (done: Result<(), ExecutionError>)
        ensures
            match self.effect(old(memory)@, old(variables)@) {
                Ok((m, v)) => {
                    &&& done is Ok
                    &&& final(memory)@ == m
                    &&& final(variables)@ == v
                },
                Err(e) => {
                    &&& done == Err::<(), ExecutionError>(e)
                    &&& final(memory)@ == old(memory)@
                    &&& final(variables)@ == old(variables)@
                },
            },
            old(memory)@.wf() ==> final(memory)@.wf(),
    ;
}

/// An operand: something that names a slot of the memory.
pub trait Deref {
    /// The identifier this operand names against `memory` and `variables`, or
    /// the fault that resolving it runs into.
    spec fn target(&self, memory: MemoryView, variables: Bindings) -> Result<
        MemoryID,
        ExecutionError,
    >;

    /// Resolves the operand. Resolving is a lookup: it changes neither the
    /// memory nor the dictionary.
    fn deref(
        &self,
        memory: &mut Memory,
        variables: &mut VariableDictionary,
    ) -> (id: Result<MemoryID, ExecutionError>)
        ensures
            id == self.target(old(memory)@, old(variables)@),
            final(memory)@ == old(memory)@,
            final(variables)@ == old(variables)@,
    ;
}

/// A variable, named by its identifier in the source.
pub struct Variable {
    pub ident: String,
}

impl Deref for Variable {
    /// A variable names the slot its scope binds it to; a name without a
    /// binding is a `NameNotBound` fault.
    open spec fn target(&self, memory: MemoryView, variables: Bindings) -> Result<
        MemoryID,
        ExecutionError,
    > {
        if variables.contains_key(self.ident@) {
            Ok(variables[self.ident@])
        } else {
            Err(ExecutionError::NameNotBound)
        }
    }

    fn deref(
        &self,
        memory: &mut Memory,
        variables: &mut VariableDictionary,
    ) -> (id: Result<MemoryID, ExecutionError>)
        ensures
            old(variables)@.contains_key(self.ident@) ==> id == Ok::<MemoryID, ExecutionError>(
                old(variables)@[self.ident@],
            ),
            !old(variables)@.contains_key(self.ident@) ==> id == Err::<MemoryID, ExecutionError>(
                ExecutionError::NameNotBound,
            ),
    {
        match variables.deref_variable(&self.ident) {
            Some(id) => Ok(id),
            None => Err(ExecutionError::NameNotBound),
        }
    }
}

/// Assignment: copies the value of the slot `org` names into the slot `trg`
/// names.
pub struct Assign<O, T> {
    pub org: O,
    pub trg: T,
}

/// What an assignment does once its operands are resolved to `org` and `trg`:
/// the value under `org` is written over the value under `trg`, whose
/// reference count stays. An identifier without a live entry, be it `org` or
/// `trg`, is a `DanglingReference` fault.
pub open spec fn copy_value(memory: MemoryView, org: MemoryID, trg: MemoryID) -> Result<
    MemoryView,
    ExecutionError,
> {
    if memory.live(org) && memory.live(trg) {
        Ok(memory.write(trg, memory.entries[org].value))
    } else {
        Err(ExecutionError::DanglingReference)
    }
}

impl<O: Deref, T: Deref> Execute for Assign<O, T> {
    /// Both operands are resolved, `org` first, and a fault of either stops
    /// the assignment; then the value is copied.
    open spec fn effect(&self, memory: MemoryView, variables: Bindings) -> Result<
        (MemoryView, Bindings),
        ExecutionError,
    > {
        match self.org.target(memory, variables) {
            Err(e) => Err(e),
            Ok(org) => match self.trg.target(memory, variables) {
                Err(e) => Err(e),
                Ok(trg) => match copy_value(memory, org, trg) {
                    Err(e) => Err(e),
                    Ok(m) => Ok((m, variables)),
                },
            },
        }
    }

    proof fn lemma_effect_keeps_wf(&self, memory: MemoryView, variables: Bindings) {
    }

    fn execute(
        &self,
        memory: &mut Memory,
        variables: &mut VariableDictionary,
    ) -> (done: Result<(), ExecutionError>)
        ensures
            final(variables)@ == old(variables)@,
            final(memory)@.next_id == old(memory)@.next_id,
            final(memory)@.entries.dom() == old(memory)@.entries.dom(),
            done is Err ==> final(memory)@ == old(memory)@,
            ({
                let before = old(memory)@;
                let after = final(memory)@;
                let org = self.org.target(before, old(variables)@);
                let trg = self.trg.target(before, old(variables)@);
                &&& done is Ok <==> org is Ok && trg is Ok && before.live(org->Ok_0)
                    && before.live(trg->Ok_0)
                &&& done is Ok ==> {
                    &&& after.read(trg->Ok_0) == before.read(org->Ok_0)
                    &&& after.read(org->Ok_0) == before.read(org->Ok_0)
                    &&& after.entries[trg->Ok_0].reference_count
                        == before.entries[trg->Ok_0].reference_count
                    &&& forall|id: MemoryID| id != trg->Ok_0 ==> after.entries[id]
                        == before.entries[id]
                }
                &&& org is Ok && !before.live(org->Ok_0) ==> done is Err && after == before
                &&& org is Ok && trg is Ok && !(before.live(org->Ok_0) && before.live(trg->Ok_0))
                    ==> done == Err::<(), ExecutionError>(ExecutionError::DanglingReference)
            }),
    {
        let org_id = self.org.deref(memory, variables)?;
        let trg_id = self.trg.deref(memory, variables)?;

        let org = match memory.read(&org_id) {
            Some(org) => *org,
            None => return Err(ExecutionError::DanglingReference),
        };

        match memory.read_mut(&trg_id) {
            Some(trg) => {
                *trg = org;
                Ok(())
            },
            None => Err(ExecutionError::DanglingReference),
        }
    }
}

} // verus!
