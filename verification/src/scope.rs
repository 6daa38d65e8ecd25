//! A scope: the bindings of one program's variables, its instructions and a
//! cursor that moves forward by one instruction per step.

use crate::error::ExecutionError;
use crate::instruction::{Assign, Execute, Variable};
use crate::memory::{Memory, MemoryID, MemoryView};
use vstd::hash_map::StringHashMap;
use vstd::prelude::*;

verus! {

/// The mathematical content of a `VariableDictionary`: a map from names to
/// identifiers.
pub type Bindings = Map<Seq<char>, MemoryID>;

/// The names a scope knows, each with the slot it stands for. The dictionary
/// names slots; it does not own them.
pub struct VariableDictionary {
    pub variables: StringHashMap<MemoryID>,
}

impl View for VariableDictionary {
    type V = Bindings;

    open spec fn view(&self) -> Bindings {
        self.variables@
    }
}

impl VariableDictionary {
    /// A dictionary without bindings.
    pub fn new() -> (dictionary: Self)
        ensures
            dictionary@ == Bindings::empty(),
    {
        VariableDictionary { variables: StringHashMap::new() }
    }

    /// Binds `ident` to `id`, in place of any earlier binding of that name.
    pub fn bind(&mut self, ident: String, id: MemoryID)
        ensures
            final(self)@ == old(self)@.insert(ident@, id),
    {
        self.variables.insert(ident, id);
    }

    /// The slot that `ident` is bound to, or `None` if this scope does not
    /// bind it.
    pub fn deref_variable(&self, ident: &String) -> (id: Option<MemoryID>)
        ensures
            id == (if self@.contains_key(ident@) {
                Some(self@[ident@])
            } else {
                None
            }),
    {
        match self.variables.get(ident.as_str()) {
            Some(id) => Some(*id),
            None => None,
        }
    }
}

/// What a step leaves behind: more instructions to run, or none.
#[derive(Clone, Copy, Debug, PartialEq, Eq, Structural)]
pub enum ScopeStatus {
    Working,
    Done,
}

/// The mathematical content of a `Scope`.
pub struct ScopeView<I> {
    pub variables: Bindings,
    pub cursor: nat,
    pub instructions: Seq<I>,
}

impl<I: Execute> ScopeView<I> {
    /// Whether every instruction has been executed.
    pub open spec fn terminated(self) -> bool {
        self.cursor >= self.instructions.len()
    }

    /// `Done` once the cursor has reached the end, `Working` before.
    pub open spec fn status(self) -> ScopeStatus {
        if self.terminated() {
            ScopeStatus::Done
        } else {
            ScopeStatus::Working
        }
    }

    /// One step: the instruction under the cursor takes effect and the cursor
    /// moves on by one. A terminated scope has no step to take, and a fault of
    /// the instruction is the fault of the step.
    pub open spec fn step(self, memory: MemoryView) -> Result<
        (ScopeView<I>, MemoryView),
        ExecutionError,
    > {
        if self.terminated() {
            Err(ExecutionError::AlreadyTerminated)
        } else {
            match self.instructions[self.cursor as int].effect(memory, self.variables) {
                Ok((m, v)) => Ok(
                    (
                        ScopeView {
                            variables: v,
                            cursor: self.cursor + 1,
                            instructions: self.instructions,
                        },
                        m,
                    ),
                ),
                Err(e) => Err(e),
            }
        }
    }

    /// `steps` steps in a row, stopping at the first fault.
    pub open spec fn run(self, memory: MemoryView, steps: nat) -> Result<
        (ScopeView<I>, MemoryView),
        ExecutionError,
    >
        decreases steps,
    {
        if steps == 0 {
            Ok((self, memory))
        } else {
            match self.step(memory) {
                Ok((scope, m)) => scope.run(m, (steps - 1) as nat),
                Err(e) => Err(e),
            }
        }
    }
}

impl<I: Execute> ScopeView<I> {
    /// What the `k`-th step in a row returns, for `k` from 1 on: the status
    /// it leaves, or the first fault on the way.
    pub open spec fn nth_step(self, memory: MemoryView, k: nat) -> Result<
        ScopeStatus,
        ExecutionError,
    > {
        match self.run(memory, k) {
            Ok((scope, _)) => Ok(scope.status()),
            Err(e) => Err(e),
        }
    }

    /// Steps that complete move the cursor on by one each, never past the end,
    /// and leave the instructions as they are.
    pub proof fn lemma_run_advances(self, memory: MemoryView, steps: nat)
        ensures
            self.run(memory, steps) matches Ok((scope, _)) ==> {
                &&& scope.cursor == self.cursor + steps
                &&& scope.instructions == self.instructions
                &&& steps > 0 ==> scope.cursor <= scope.instructions.len()
            },
        decreases steps,
    {
        if steps > 0 {
            if let Ok((scope, m)) = self.step(memory) {
                scope.lemma_run_advances(m, (steps - 1) as nat);
            }
        }
    }

    /// Running one step more is running, then stepping.
    pub proof fn lemma_run_then_step(self, memory: MemoryView, steps: nat)
        ensures
            self.run(memory, steps + 1) == (match self.run(memory, steps) {
                Ok((scope, m)) => scope.step(m),
                Err(e) => Err(e),
            }),
        decreases steps,
    {
        if let Ok((scope, m)) = self.step(memory) {
            if steps > 0 {
                scope.lemma_run_then_step(m, (steps - 1) as nat);
                assert(self.run(memory, steps + 1) == scope.run(m, steps));
            } else {
                assert(scope.run(m, 0) == Ok::<_, ExecutionError>((scope, m)));
            }
        }
    }

    /// However far a scope runs, it leaves a well-formed memory well formed.
    pub proof fn lemma_run_keeps_wf(self, memory: MemoryView, steps: nat)
        requires
            memory.wf(),
        ensures
            self.run(memory, steps) matches Ok((_, m)) ==> m.wf(),
        decreases steps,
    {
        if steps > 0 {
            if let Ok((scope, m)) = self.step(memory) {
                self.instructions[self.cursor as int].lemma_effect_keeps_wf(
                    memory,
                    self.variables,
                );
                scope.lemma_run_keeps_wf(m, (steps - 1) as nat);
            }
        }
    }

    /// A scope of `n >= 1` instructions, stepped from its start: while its
    /// instructions complete, each of the steps 1 to `n - 1` returns
    /// `Working` and step `n` returns `Done`. No step after that completes:
    /// once step `n` has returned, the next reports `AlreadyTerminated`.
    pub proof fn lemma_done_exactly_on_last_step(self, memory: MemoryView, k: nat)
        requires
            self.cursor == 0,
            self.instructions.len() >= 1,
            k >= 1,
        ensures
            self.nth_step(memory, k) matches Ok(status) ==> {
                &&& k <= self.instructions.len()
                &&& k < self.instructions.len() ==> status == ScopeStatus::Working
                &&& k == self.instructions.len() ==> status == ScopeStatus::Done
            },
            k > self.instructions.len() ==> self.nth_step(memory, k) is Err,
            self.run(memory, self.instructions.len()) is Ok ==> self.nth_step(
                memory,
                self.instructions.len() + 1,
            ) == Err::<ScopeStatus, ExecutionError>(ExecutionError::AlreadyTerminated),
    {
        let n = self.instructions.len();
        self.lemma_run_advances(memory, k);
        self.lemma_run_advances(memory, n);
        self.lemma_run_then_step(memory, n);
    }
}

impl ScopeView<Assign<Variable, Variable>> {
    /// Whether `name` is bound, and bound to a live slot of `memory`.
    pub open spec fn names_live_slot(self, memory: MemoryView, name: Seq<char>) -> bool {
        self.variables.contains_key(name) && memory.live(self.variables[name])
    }

    /// Whether every assignment of the scope is between variables that are
    /// bound to live slots of `memory`.
    pub open spec fn well_bound(self, memory: MemoryView) -> bool {
        forall|i: int|
            0 <= i < self.instructions.len() ==> {
                &&& self.names_live_slot(memory, (#[trigger] self.instructions[i]).org.ident@)
                &&& self.names_live_slot(memory, self.instructions[i].trg.ident@)
            }
    }

    /// Assignments neither bind a name nor add or remove a slot, so a scope
    /// that is well bound stays so and none of its steps faults, as far as
    /// its instructions reach.
    pub proof fn lemma_well_bound_scope_runs(self, memory: MemoryView, steps: nat)
        requires
            self.well_bound(memory),
            self.cursor + steps <= self.instructions.len(),
        ensures
            self.run(memory, steps) is Ok,
            self.run(memory, steps)->Ok_0.0.well_bound(self.run(memory, steps)->Ok_0.1),
        decreases steps,
    {
        if steps > 0 {
            let (scope, m) = self.step(memory)->Ok_0;
            assert(m.entries.dom() =~= memory.entries.dom());
            scope.lemma_well_bound_scope_runs(m, (steps - 1) as nat);
        }
    }

    /// A scope of `n >= 1` assignments between variables bound to live slots,
    /// stepped from its start, returns `Working` on each of the steps 1 to
    /// `n - 1` and `Done` on step `n`.
    pub proof fn lemma_well_bound_scope_runs_to_done(self, memory: MemoryView, k: nat)
        requires
            self.well_bound(memory),
            self.cursor == 0,
            1 <= k <= self.instructions.len(),
        ensures
            k < self.instructions.len() ==> self.nth_step(memory, k) == Ok::<_, ExecutionError>(
                ScopeStatus::Working,
            ),
            k == self.instructions.len() ==> self.nth_step(memory, k) == Ok::<_, ExecutionError>(
                ScopeStatus::Done,
            ),
    {
        self.lemma_well_bound_scope_runs(memory, k);
        self.lemma_done_exactly_on_last_step(memory, k);
    }
}

/// One program in execution.
pub struct Scope<I> {
    pub variable_dictionary: VariableDictionary,
    pub current_instruction: usize,
    pub instructions: Vec<I>,
}

impl<I: Execute> View for Scope<I> {
    type V = ScopeView<I>;

    open spec fn view(&self) -> ScopeView<I> {
        ScopeView {
            variables: self.variable_dictionary@,
            cursor: self.current_instruction as nat,
            instructions: self.instructions@,
        }
    }
}

impl<I: Execute> Scope<I> {
    /// Executes the instruction under the cursor against `memory` and moves
    /// the cursor on by one. Returns `Done` if that was the last instruction
    /// and `Working` otherwise.
    ///
    /// A scope that has terminated reports `AlreadyTerminated`. A fault of the
    /// instruction is reported as it is. In both cases neither the scope nor
    /// the memory changes, so the cursor still stands on the instruction that
    /// did not complete.
    pub fn step(&mut self, memory: &mut Memory) -> (status: Result<ScopeStatus, ExecutionError>)
        ensures
            match old(self)@.step(old(memory)@) {
                Ok((scope, m)) => {
                    &&& status == Ok::<ScopeStatus, ExecutionError>(scope.status())
                    &&& final(self)@ == scope
                    &&& final(memory)@ == m
                },
                Err(e) => {
                    &&& status == Err::<ScopeStatus, ExecutionError>(e)
                    &&& final(self)@ == old(self)@
                    &&& final(memory)@ == old(memory)@
                },
            },
            old(self)@.terminated() ==> status == Err::<ScopeStatus, ExecutionError>(
                ExecutionError::AlreadyTerminated,
            ),
            final(self)@.instructions == old(self)@.instructions,
            status is Ok ==> final(self)@.cursor == old(self)@.cursor + 1,
            status is Err ==> final(self)@.cursor == old(self)@.cursor,
            status matches Ok(s) ==> (s is Done <==> final(self)@.cursor
                == final(self)@.instructions.len()),
            old(memory)@.wf() ==> final(memory)@.wf(),
    {
        if self.current_instruction >= self.instructions.len() {
            return Err(ExecutionError::AlreadyTerminated);
        }
        self.instructions[self.current_instruction].execute(
            memory,
            &mut self.variable_dictionary,
        )?;
        self.current_instruction += 1;

        if self.current_instruction >= self.instructions.len() {
            Ok(ScopeStatus::Done)
        } else {
            Ok(ScopeStatus::Working)
        }
    }
}

} // verus!
