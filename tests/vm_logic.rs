use exonum_wasm_runtime::error::{VMError, VMLogicError};
use exonum_wasm_runtime::logic::{ReturnData, VMLogic, ABSENT_REGISTER_LEN};
use exonum_wasm_runtime::memory::{GuestMemory, MemoryLike};
use exonum_wasm_runtime::service::{add_one, add_to_counter, multiply_2, WasmService};

fn logic_with(size: usize) -> VMLogic<GuestMemory> {
    VMLogic::new(GuestMemory::new(size))
}

#[test]
fn absent_register_reports_sentinel_length() {
    let mut logic = logic_with(16);
    assert_eq!(logic.register_len(7), Ok(u64::MAX));
    assert_eq!(ABSENT_REGISTER_LEN, u64::MAX);
}

#[test]
fn absent_register_read_fails_and_leaves_memory() {
    let mut logic = logic_with(16);
    assert_eq!(logic.read_register(3, 0), Err(VMLogicError::HostError));
    assert_eq!(logic.memory_get_vec(0, 16), Ok(vec![0u8; 16]));
}

#[test]
fn written_register_has_its_length_and_is_copied_into_memory() {
    let mut logic = logic_with(8);
    logic.write_register(0, &[9, 8, 7]);
    assert_eq!(logic.register_len(0), Ok(3));
    assert_eq!(logic.read_register(0, 2), Ok(()));
    assert_eq!(logic.memory_get_vec(0, 8), Ok(vec![0, 0, 9, 8, 7, 0, 0, 0]));
}

#[test]
fn register_too_long_for_memory_is_refused() {
    let mut logic = logic_with(4);
    logic.write_register(1, &[1, 2, 3]);
    assert_eq!(logic.read_register(1, 2), Err(VMLogicError::HostError));
    assert_eq!(logic.memory_get_vec(0, 4), Ok(vec![0, 0, 0, 0]));
}

#[test]
fn written_register_is_replaced() {
    let mut logic = logic_with(4);
    logic.write_register(5, &[1, 2, 3]);
    logic.write_register(5, &[4]);
    assert_eq!(logic.register_len(5), Ok(1));
}

#[test]
fn memory_round_trip() {
    let mut logic = logic_with(32);
    let bytes = [1u8, 2, 3, 4, 5];
    assert_eq!(logic.memory_set_slice(10, &bytes), Ok(()));
    assert_eq!(logic.memory_get_vec(10, 5), Ok(bytes.to_vec()));
    assert_eq!(logic.memory_get_vec(9, 7), Ok(vec![0, 1, 2, 3, 4, 5, 0]));
}

#[test]
fn memory_round_trip_at_the_end() {
    let mut logic = logic_with(4);
    assert_eq!(logic.memory_set_slice(1, &[7, 7, 7]), Ok(()));
    assert_eq!(logic.memory_get_vec(1, 3), Ok(vec![7, 7, 7]));
}

#[test]
fn memory_access_out_of_bounds_fails_unchanged() {
    let mut logic = logic_with(8);
    assert_eq!(logic.memory_set_slice(6, &[1, 2, 3]), Err(VMLogicError::HostError));
    assert_eq!(logic.memory_get_vec(6, 3), Err(VMLogicError::HostError));
    assert_eq!(logic.memory_get_vec(9, 0), Err(VMLogicError::HostError));
    assert_eq!(logic.memory_get_vec(0, 8), Ok(vec![0u8; 8]));
}

#[test]
fn memory_access_with_overflowing_end_fails() {
    let mut logic = logic_with(8);
    assert_eq!(logic.memory_get_vec(u64::MAX, 2), Err(VMLogicError::HostError));
    assert_eq!(logic.memory_set_slice(u64::MAX, &[1]), Err(VMLogicError::HostError));
    assert_eq!(logic.memory_get_vec(0, 8), Ok(vec![0u8; 8]));
}

#[test]
fn zero_length_access_fits_at_the_end() {
    let mut logic = logic_with(8);
    assert_eq!(logic.memory_get_vec(8, 0), Ok(vec![]));
    assert!(logic.memory().fits_memory(8, 0));
    assert!(!logic.memory().fits_memory(9, 0));
}

#[test]
fn outcome_defaults_to_nothing() {
    let logic = logic_with(4);
    assert_eq!(logic.outcome(), ReturnData::Nothing);
}

#[test]
fn value_return_sets_the_outcome() {
    let mut memory = GuestMemory::from_bytes(vec![10, 20, 30, 40]);
    assert_eq!(memory.size(), 4);
    memory.write_memory(0, &[11]);
    let mut logic = VMLogic::new(memory);
    assert_eq!(logic.value_return(2, 1), Ok(()));
    assert_eq!(logic.value_return(5, 0), Err(VMLogicError::HostError));
    assert_eq!(logic.outcome(), ReturnData::Value(vec![20, 30]));
}

#[test]
fn guest_memory_reads_what_was_written() {
    let mut memory = GuestMemory::new(6);
    memory.write_memory(2, &[5, 6]);
    let mut buf = [0u8; 3];
    memory.read_memory(1, &mut buf);
    assert_eq!(buf, [0, 5, 6]);
}

#[test]
fn trapped_call_is_a_function_call_error() {
    let logic = logic_with(4);
    assert_eq!(WasmService::call_outcome(logic, true), Err(VMError::FunctionCallError));
    let mut logic = logic_with(4);
    logic.write_register(0, &[1]);
    assert_eq!(WasmService::call_outcome(logic, false), Ok(ReturnData::Nothing));
}

#[test]
fn host_counter_addition() {
    assert_eq!(add_to_counter(40, 2), Ok(42));
    assert_eq!(add_to_counter(i32::MAX, 1), Err(VMLogicError::InconsistentStateError));
    assert_eq!(add_to_counter(i32::MIN, -1), Err(VMLogicError::InconsistentStateError));
}

#[test]
fn counter_guest_arithmetic() {
    assert_eq!(add_one(41), 42);
    assert_eq!(add_one(-1), 0);
    assert_eq!(multiply_2(21), 42);
    assert_eq!(multiply_2(-4), -8);
}
