use vstd::prelude::*;

use crate::artifact::{ArtifactId, ArtifactKey, Version, WASM_RUNTIME_ID};
use crate::error::{VMError, VMLogicError};
use crate::instance::InstanceSpec;
use crate::logic::{ReturnData, VMLogic};
use crate::memory::MemoryLike;

verus! {

/// The mathematical value of a service: its name and its bytecode.
pub struct ServiceKey {
    pub name: Seq<char>,
    pub bytecode: Seq<u8>,
}

/// A deployable service: a name and the compiled guest bytecode.
#[derive(Debug, Default)]
pub struct WasmService {
    pub name: String,
    pub wasm_bytes: Vec<u8>,
}

impl View for WasmService {
    type V = ServiceKey;

    open spec fn view(&self) -> ServiceKey {
        ServiceKey { name: self.name@, bytecode: self.wasm_bytes@ }
    }
}

impl Clone for WasmService {
    fn clone(&self) -> (r: Self)
        ensures
            r@ == self@,
    {
        let wasm_bytes = self.wasm_bytes.clone();
        assert(wasm_bytes@ =~= self.wasm_bytes@);
        WasmService { name: self.name.clone(), wasm_bytes }
    }
}

impl WasmService {
    /// A service named `name` whose bytecode is `wasm_bytes`.
    pub fn new(name: &str, wasm_bytes: Vec<u8>) -> (r: WasmService)
        ensures
            r@ == (ServiceKey { name: name@, bytecode: wasm_bytes@ }),
    {
        WasmService { name: String::from_str(name), wasm_bytes }
    }

    /// What a guest call made over `logic` comes to, once the engine has run it: the
    /// returned data, or `FunctionCallError` where the guest trapped.
    pub fn call_outcome<M: MemoryLike>(logic: VMLogic<M>, trapped: bool) -> (r: Result<
        ReturnData,
        VMError,
    >)
        ensures
            trapped ==> r == Err::<ReturnData, VMError>(VMError::FunctionCallError),
            !trapped ==> r == Ok::<ReturnData, VMError>(logic.return_data()),
    {
        if trapped {
            Err(VMError::FunctionCallError)
        } else {
            Ok(logic.outcome())
        }
    }
}

/// State of a counter service, owned by whoever mutates it.
#[derive(Debug, Default, Clone)]
pub struct CounterService {
    pub counter: u64,
    pub name: String,
}

/// Host function `add_to_counter`: the sum of the two values, or
/// `InconsistentStateError` where it overflows.
pub fn add_to_counter(counter: i32, add_value: i32) -> (r: Result<i32, VMLogicError>)
    ensures
        i32::MIN <= counter + add_value <= i32::MAX ==> r == Ok::<i32, VMLogicError>(
            (counter + add_value) as i32,
        ),
        !(i32::MIN <= counter + add_value <= i32::MAX) ==> r == Err::<i32, VMLogicError>(
            VMLogicError::InconsistentStateError,
        ),
{
    match counter.checked_add(add_value) {
        Some(v) => Ok(v),
        None => Err(VMLogicError::InconsistentStateError),
    }
}

/// Guest entry point of the counter service: the value doubled.
pub fn multiply_2(value: i32) -> (r: i32)
    requires
        i32::MIN <= 2 * value <= i32::MAX,
    ensures
        r == 2 * value,
{
    value * 2
}

/// Guest entry point of the counter service: the value plus one.
pub fn add_one(value: i32) -> (r: i32)
    requires
        value < i32::MAX,
    ensures
        r == value + 1,
{
    value + 1
}

/// The default counter service instance.
pub struct CounterServiceImpl;

/// Version of the counter service's artifact.
pub open spec fn counter_version() -> Version {
    Version { major: 1, minor: 1, patch: 1 }
}

impl CounterServiceImpl {
    pub const INSTANCE_ID: u32 = 2;

    /// Default name of the service instance.
    pub fn instance_name(&self) -> (r: String)
        ensures
            r@ == "test_service"@,
    {
        String::from_str("test_service")
    }

    /// The default instance: id `INSTANCE_ID`, named `test_service`, on the counter
    /// service's artifact.
    pub fn default_instance(&self) -> (r: InstanceSpec)
        ensures
            r.id == Self::INSTANCE_ID,
            r.name@ == "test_service"@,
            r.artifact@ == (ArtifactKey {
                runtime_id: WASM_RUNTIME_ID,
                name: "test_service"@,
                version: counter_version(),
            }),
    {
        InstanceSpec::new(Self::INSTANCE_ID, "test_service", self.artifact_id())
    }

    /// The artifact of the counter service.
    pub fn artifact_id(&self) -> (r: ArtifactId)
        ensures
            r@ == (ArtifactKey {
                runtime_id: WASM_RUNTIME_ID,
                name: "test_service"@,
                version: counter_version(),
            }),
    {
        ArtifactId::wasm("test_service", Version::new(1, 1, 1))
    }
}

} // verus!
