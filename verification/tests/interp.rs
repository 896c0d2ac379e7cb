use cwasm::cursor::Cursor;
use cwasm::error::WasmError;
use cwasm::vm::{VM, Value};

#[test]
fn vm_new_is_empty() {
    let vm = VM::new();
    assert_eq!(vm.stack.len(), 0);
    assert_eq!(vm.locals.len(), 0);
}

#[test]
fn local_get_then_set_is_a_state_no_op_with_stack_depth_one_between() {
    // body: locals count 1, then `local.get 0`, `local.set 0`
    let body = vec![0x01, 0x20, 0x00, 0x21, 0x00];
    // step through by hand to observe the intermediate stack depth
    let mut vm = VM::new();
    vm.locals.push(Value::I32 { val: 0 });
    let mut cur = Cursor::new(vec![0x20, 0x00, 0x21, 0x00]);
    let op = cur.read_u8().unwrap();
    assert_eq!(vm.handle_istr(op, &mut cur), Ok(()));
    assert_eq!(vm.stack.len(), 1); // the get pushed one value
    let op2 = cur.read_u8().unwrap();
    assert_eq!(vm.handle_istr(op2, &mut cur), Ok(()));
    assert_eq!(vm.stack.len(), 0); // the set popped it back
    assert_eq!(vm.locals, vec![Value::I32 { val: 0 }]); // unchanged
    // the whole body through run: same end state
    let mut vm2 = VM::new();
    assert_eq!(vm2.run(&body), Ok(()));
    assert_eq!(vm2.stack.len(), 0);
    assert_eq!(vm2.locals, vec![Value::I32 { val: 0 }]);
}

#[test]
fn unhandled_opcode_halts_immediately() {
    // one valid instruction, then an unassigned opcode
    let body = vec![0x01, 0x20, 0x00, 0xFF];
    let mut vm = VM::new();
    let r = vm.run(&body);
    assert_eq!(r, Err(WasmError::UnhandledInstruction { opcode: 0xFF }));
    // the valid instruction before it did execute; nothing after it did
    assert_eq!(vm.stack.len(), 1);
}

#[test]
fn local_get_index_one_past_the_end_is_out_of_range() {
    // locals count 1: index 1 is the first invalid index
    let body = vec![0x01, 0x20, 0x01];
    let mut vm = VM::new();
    let r = vm.run(&body);
    assert_eq!(r, Err(WasmError::IndexOutOfRange { index: 1 }));
    assert_eq!(vm.stack.len(), 0);
}

#[test]
fn local_set_and_tee_out_of_range() {
    let mut vm = VM::new();
    let r = vm.run(&vec![0x02, 0x21, 0x05]);
    assert_eq!(r, Err(WasmError::IndexOutOfRange { index: 5 }));
    let mut vm2 = VM::new();
    let r2 = vm2.run(&vec![0x00, 0x22, 0x00]);
    assert_eq!(r2, Err(WasmError::IndexOutOfRange { index: 0 }));
}

#[test]
fn local_set_on_empty_stack_underflows() {
    let body = vec![0x01, 0x21, 0x00];
    let mut vm = VM::new();
    assert_eq!(vm.run(&body), Err(WasmError::StackUnderflow));
}

#[test]
fn local_tee_on_empty_stack_underflows() {
    let body = vec![0x01, 0x22, 0x00];
    let mut vm = VM::new();
    assert_eq!(vm.run(&body), Err(WasmError::StackUnderflow));
}

#[test]
fn local_set_moves_the_top_of_the_stack_into_the_local() {
    let mut vm = VM::new();
    vm.locals.push(Value::I32 { val: 0 });
    vm.stack.push(Value::I64 { val: 7 });
    let mut cur = Cursor::new(vec![0x21, 0x00]);
    let op = cur.read_u8().unwrap();
    assert_eq!(vm.handle_istr(op, &mut cur), Ok(()));
    assert_eq!(vm.stack.len(), 0);
    assert_eq!(vm.locals, vec![Value::I64 { val: 7 }]);
}

#[test]
fn local_tee_stores_without_popping() {
    let mut vm = VM::new();
    vm.locals.push(Value::I32 { val: 0 });
    vm.stack.push(Value::F64Bits { bits: 0x4000_0000_0000_0000 });
    let mut cur = Cursor::new(vec![0x22, 0x00]);
    let op = cur.read_u8().unwrap();
    assert_eq!(vm.handle_istr(op, &mut cur), Ok(()));
    assert_eq!(vm.stack, vec![Value::F64Bits { bits: 0x4000_0000_0000_0000 }]);
    assert_eq!(vm.locals, vec![Value::F64Bits { bits: 0x4000_0000_0000_0000 }]);
}

#[test]
fn global_opcodes_decode_their_operand_and_leave_state_alone() {
    // global.get 5, global.set 0: recognized, no backing store yet
    let body = vec![0x00, 0x23, 0x05, 0x24, 0x00];
    let mut vm = VM::new();
    assert_eq!(vm.run(&body), Ok(()));
    assert_eq!(vm.stack.len(), 0);
    assert_eq!(vm.locals.len(), 0);
}

#[test]
fn truncated_operand_fails() {
    // `local.get` with no operand bytes left
    let body = vec![0x00, 0x20];
    let mut vm = VM::new();
    assert_eq!(vm.run(&body), Err(WasmError::TruncatedInput));
}

#[test]
fn truncated_locals_count_fails() {
    let mut vm = VM::new();
    assert_eq!(vm.run(&vec![]), Err(WasmError::TruncatedInput));
    let mut vm2 = VM::new();
    assert_eq!(vm2.run(&vec![0x80]), Err(WasmError::TruncatedInput));
}

#[test]
fn empty_body_after_locals_count_succeeds() {
    let mut vm = VM::new();
    assert_eq!(vm.run(&vec![0x03]), Ok(()));
    assert_eq!(vm.locals.len(), 3);
    assert_eq!(vm.locals, vec![
        Value::I32 { val: 0 },
        Value::I32 { val: 0 },
        Value::I32 { val: 0 },
    ]);
    assert_eq!(vm.stack.len(), 0);
}
