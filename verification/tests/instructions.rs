use exec_core::error::ExecutionError;
use exec_core::instruction::{Assign, Deref, Execute, Variable};
use exec_core::memory::{Memory, MemoryID, Value};
use exec_core::scope::VariableDictionary;

fn variable(name: &str) -> Variable {
    Variable { ident: name.to_string() }
}

fn assign(org: &str, trg: &str) -> Assign<Variable, Variable> {
    Assign { org: variable(org), trg: variable(trg) }
}

fn two_slots(a: Value, b: Value) -> (Memory, VariableDictionary, MemoryID, MemoryID) {
    let mut memory = Memory::new();
    let id_a = memory.allocate(a);
    let id_b = memory.allocate(b);
    let mut variables = VariableDictionary::new();
    variables.bind("a".to_string(), id_a);
    variables.bind("b".to_string(), id_b);
    (memory, variables, id_a, id_b)
}

#[test]
fn variable_resolves_to_its_binding() {
    let (mut memory, mut variables, _, id_b) = two_slots(Value::I32(5), Value::I32(0));
    let operand = Variable { ident: "b".to_string() };
    assert_eq!(operand.deref(&mut memory, &mut variables), Ok(id_b));
}

#[test]
fn variable_resolves_even_if_its_slot_is_gone() {
    let (mut memory, mut variables, id_a, _) = two_slots(Value::I32(5), Value::I32(0));
    memory.free(&id_a);
    let operand = Variable { ident: "a".to_string() };
    assert_eq!(operand.deref(&mut memory, &mut variables), Ok(id_a));
}

#[test]
fn unbound_variable_reports_name_not_bound() {
    let (mut memory, mut variables, _, _) = two_slots(Value::I32(5), Value::I32(0));
    let before = memory.memory.clone();
    let operand = Variable { ident: "missing".to_string() };
    assert_eq!(operand.deref(&mut memory, &mut variables), Err(ExecutionError::NameNotBound));
    assert_eq!(memory.memory, before);
    assert_eq!(variables.deref_variable(&"a".to_string()), Some(0));
}

#[test]
fn variable_names_are_case_sensitive() {
    let (mut memory, mut variables, _, _) = two_slots(Value::I32(5), Value::I32(0));
    let operand = Variable { ident: "A".to_string() };
    assert_eq!(operand.deref(&mut memory, &mut variables), Err(ExecutionError::NameNotBound));
}

#[test]
fn assign_copies_org_into_trg() {
    let (mut memory, mut variables, id_a, id_b) = two_slots(Value::I32(5), Value::I32(0));
    assert_eq!(assign("a", "b").execute(&mut memory, &mut variables), Ok(()));
    assert_eq!(memory.read(&id_b), Some(&Value::I32(5)));
    assert_eq!(memory.read(&id_a), Some(&Value::I32(5)));
}

#[test]
fn assign_changes_the_variant_of_trg() {
    let (mut memory, mut variables, id_a, id_b) =
        two_slots(Value::F32(2.25f32.to_bits()), Value::I32(0));
    assert_eq!(assign("a", "b").execute(&mut memory, &mut variables), Ok(()));
    assert_eq!(memory.read(&id_b), Some(&Value::F32(2.25f32.to_bits())));
    assert_eq!(memory.read(&id_a), Some(&Value::F32(2.25f32.to_bits())));
}

#[test]
fn assign_copies_a_reference_not_what_it_points_to() {
    let (mut memory, mut variables, id_a, id_b) = two_slots(Value::Reference(1), Value::I32(9));
    assert_eq!(assign("a", "b").execute(&mut memory, &mut variables), Ok(()));
    assert_eq!(memory.read(&id_b), Some(&Value::Reference(1)));
    assert_eq!(memory.read(&id_a), Some(&Value::Reference(1)));
}

#[test]
fn assign_keeps_the_reference_count_of_trg() {
    let (mut memory, mut variables, id_a, id_b) = two_slots(Value::I32(5), Value::I32(0));
    memory.memory.get_mut(&id_a).unwrap().reference_count = 4;
    memory.memory.get_mut(&id_b).unwrap().reference_count = 7;
    assert_eq!(assign("a", "b").execute(&mut memory, &mut variables), Ok(()));
    assert_eq!(memory.memory.get(&id_b).unwrap().reference_count, 7);
    assert_eq!(memory.memory.get(&id_a).unwrap().reference_count, 4);
    assert_eq!(memory.current_memory_id, 2);
    assert_eq!(memory.memory.len(), 2);
}

#[test]
fn assign_to_itself_changes_nothing() {
    let (mut memory, mut variables, _, _) = two_slots(Value::I32(5), Value::I32(0));
    let before = memory.memory.clone();
    assert_eq!(assign("a", "a").execute(&mut memory, &mut variables), Ok(()));
    assert_eq!(memory.memory, before);
}

#[test]
fn assign_through_aliased_names() {
    let (mut memory, mut variables, id_a, id_b) = two_slots(Value::I32(5), Value::I32(0));
    variables.bind("alias".to_string(), id_b);
    assert_eq!(assign("a", "alias").execute(&mut memory, &mut variables), Ok(()));
    assert_eq!(memory.read(&id_b), Some(&Value::I32(5)));
    assert_eq!(memory.read(&id_a), Some(&Value::I32(5)));
}

#[test]
fn assign_with_dangling_org_leaves_memory_unchanged() {
    let (mut memory, mut variables, id_a, id_b) = two_slots(Value::I32(5), Value::I32(0));
    memory.free(&id_a);
    let before = memory.memory.clone();
    assert_eq!(
        assign("a", "b").execute(&mut memory, &mut variables),
        Err(ExecutionError::DanglingReference)
    );
    assert_eq!(memory.memory, before);
    assert_eq!(memory.read(&id_b), Some(&Value::I32(0)));
    assert_eq!(memory.current_memory_id, 2);
}

#[test]
fn assign_with_dangling_trg_leaves_memory_unchanged() {
    let (mut memory, mut variables, id_a, id_b) = two_slots(Value::I32(5), Value::I32(0));
    memory.free(&id_b);
    let before = memory.memory.clone();
    assert_eq!(
        assign("a", "b").execute(&mut memory, &mut variables),
        Err(ExecutionError::DanglingReference)
    );
    assert_eq!(memory.memory, before);
    assert_eq!(memory.read(&id_a), Some(&Value::I32(5)));
}

#[test]
fn assign_with_unbound_org_reports_name_not_bound() {
    let (mut memory, mut variables, _, _) = two_slots(Value::I32(5), Value::I32(0));
    let before = memory.memory.clone();
    assert_eq!(
        assign("x", "b").execute(&mut memory, &mut variables),
        Err(ExecutionError::NameNotBound)
    );
    assert_eq!(memory.memory, before);
}

#[test]
fn assign_with_unbound_trg_reports_name_not_bound() {
    let (mut memory, mut variables, _, _) = two_slots(Value::I32(5), Value::I32(0));
    let before = memory.memory.clone();
    assert_eq!(
        assign("a", "y").execute(&mut memory, &mut variables),
        Err(ExecutionError::NameNotBound)
    );
    assert_eq!(memory.memory, before);
}

#[test]
fn assign_resolves_both_operands_before_it_reads() {
    let (mut memory, mut variables, id_a, _) = two_slots(Value::I32(5), Value::I32(0));
    memory.free(&id_a);
    assert_eq!(
        assign("a", "y").execute(&mut memory, &mut variables),
        Err(ExecutionError::NameNotBound)
    );
}
