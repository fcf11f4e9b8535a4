use exonum_wasm_runtime::artifact::{ArtifactId, Version, WASM_RUNTIME_ID};
use exonum_wasm_runtime::dispatch::{decode_u64, finish_call, plan_call};
use exonum_wasm_runtime::error::VMError;
use exonum_wasm_runtime::instance::{InstanceSpec, InstanceState, InstanceStatus};
use exonum_wasm_runtime::logic::ReturnData;
use exonum_wasm_runtime::runtime::{Error, WasmRuntime, WasmRuntimeBuilder};
use exonum_wasm_runtime::service::{CounterServiceImpl, WasmService};

fn counter_bytes() -> Vec<u8> {
    vec![0, 97, 115, 109, 1, 0, 0, 0]
}

fn runtime_with(names: &[&str]) -> WasmRuntime {
    let mut builder = WasmRuntime::builder();
    for name in names {
        builder = builder.with_factory(name, WasmService::new("counter-service", counter_bytes()));
    }
    builder.build_for_tests()
}

fn v111() -> Version {
    Version::new(1, 1, 1)
}

fn active(id: u32, name: &str, artifact: ArtifactId) -> InstanceState {
    InstanceState {
        spec: InstanceSpec::new(id, name, artifact),
        status: InstanceStatus::Active,
        data_version: None,
    }
}

#[test]
fn first_deploy_of_a_catalog_artifact_succeeds() {
    let mut runtime = runtime_with(&["counter"]);
    let artifact = ArtifactId::wasm("counter", v111());
    assert!(!runtime.is_artifact_deployed(&artifact));
    assert_eq!(runtime.deploy_artifact(artifact.clone(), vec![]), Ok(()));
    assert!(runtime.is_artifact_deployed(&artifact));
}

#[test]
fn deploy_with_parameters_is_incorrect_artifact_id() {
    let mut runtime = runtime_with(&["counter"]);
    let artifact = ArtifactId::wasm("counter", v111());
    let err = runtime.deploy_artifact(artifact.clone(), vec![1]).unwrap_err();
    assert_eq!(err.kind, Error::IncorrectArtifactId);
    assert!(!runtime.is_artifact_deployed(&artifact));
    let other = ArtifactId::wasm("missing", v111());
    let err = runtime.deploy_artifact(other, vec![0, 0]).unwrap_err();
    assert_eq!(err.kind, Error::IncorrectArtifactId);
}

#[test]
fn deploy_outside_catalog_is_unable_to_deploy() {
    let mut runtime = runtime_with(&["counter", "other"]);
    let artifact = ArtifactId::wasm("missing", v111());
    let err = runtime.deploy_artifact(artifact.clone(), vec![]).unwrap_err();
    assert_eq!(err.kind, Error::UnableToDeploy);
    assert_eq!(
        err.description,
        "Runtime failed to deploy artifact with id 2:missing:1.1.1, it is not listed among \
         available artifacts. Available artifacts: 2:counter:1.1.1, 2:other:1.1.1"
    );
    assert!(!runtime.is_artifact_deployed(&artifact));
}

#[test]
fn deploy_with_empty_catalog_lists_none() {
    let mut runtime = WasmRuntimeBuilder::new().build();
    let artifact = ArtifactId::new(0, "x".to_string(), Version::new(0, 10, 3));
    let err = runtime.deploy_artifact(artifact, vec![]).unwrap_err();
    assert_eq!(
        err.description,
        "Runtime failed to deploy artifact with id 0:x:0.10.3, it is not listed among \
         available artifacts. Available artifacts: None"
    );
}

#[test]
fn deployed_state_follows_deploy_and_unload() {
    let mut runtime = runtime_with(&["counter"]);
    let artifact = ArtifactId::wasm("counter", v111());
    assert!(!runtime.is_artifact_deployed(&artifact));
    runtime.deploy_artifact(artifact.clone(), vec![]).unwrap();
    assert!(runtime.is_artifact_deployed(&artifact));
    runtime.unload_artifact(&artifact);
    assert!(!runtime.is_artifact_deployed(&artifact));
    assert_eq!(runtime.deploy_artifact(artifact.clone(), vec![]), Ok(()));
}

#[test]
fn second_deploy_is_not_a_request_to_make() {
    let mut runtime = runtime_with(&["counter"]);
    let artifact = ArtifactId::wasm("counter", v111());
    runtime.deploy_artifact(artifact.clone(), vec![]).unwrap();
    // A caller must check this before deploying again.
    assert!(runtime.is_artifact_deployed(&artifact));
}

#[test]
fn factory_registered_twice_is_listed_once() {
    let mut runtime = runtime_with(&["counter", "counter"]);
    let err = runtime
        .deploy_artifact(ArtifactId::wasm("nope", v111()), vec![])
        .unwrap_err();
    assert!(err.description.ends_with("Available artifacts: 2:counter:1.1.1"));
}

#[test]
fn unknown_instance_is_incorrect_call_info() {
    let runtime = runtime_with(&["counter"]);
    let err = runtime.execute(5, "", 0, &1000u64.to_le_bytes()).unwrap_err();
    assert_eq!(err.kind, Error::IncorrectCallInfo);
}

#[test]
fn counter_service_scenario() {
    let mut runtime = runtime_with(&["counter"]);
    let artifact = ArtifactId::wasm("counter", v111());
    runtime.deploy_artifact(artifact.clone(), vec![]).unwrap();
    let spec = InstanceSpec::new(2, "test_service", artifact.clone());
    assert!(runtime.initiate_adding_service(&spec, &artifact, vec![]).is_ok());
    let state = active(2, "test_service", artifact.clone());
    assert!(runtime.can_update_service_status(&state));
    runtime.update_service_status(&state);

    let call = runtime.execute(2, "", 0, &1000u64.to_le_bytes()).unwrap();
    assert_eq!(call.export, "add_one");
    assert_eq!(call.args, vec![1000]);
    assert_eq!(call.bytecode, counter_bytes());

    let call = runtime.execute(2, "", 1, &10u64.to_le_bytes()).unwrap();
    assert_eq!(call.export, "ext_read_vec");
    assert!(call.args.is_empty());

    let err = runtime.execute(2, "", 2, &10u64.to_le_bytes()).unwrap_err();
    assert_eq!(err.kind, Error::UnknownTransaction);
    assert_eq!(err.description, "Incorrect information to call transaction. #2");
    assert!(err.description.contains('2'));
}

#[test]
fn unknown_interface_is_unknown_transaction_and_keeps_state() {
    let mut runtime = runtime_with(&["counter"]);
    let artifact = ArtifactId::wasm("counter", v111());
    runtime.update_service_status(&active(2, "test_service", artifact));
    let err = runtime.execute(2, "stats", 0, &[0u8; 8]).unwrap_err();
    assert_eq!(err.kind, Error::UnknownTransaction);
    assert_eq!(err.description, "Incorrect information to call transaction. stats#0");
    assert!(runtime.execute(2, "", 0, &[0u8; 8]).is_ok());
}

#[test]
fn malformed_payload_is_unknown_transaction() {
    let bytes = counter_bytes();
    let err = plan_call("", 0, &[1, 2, 3], &bytes).unwrap_err();
    assert_eq!(err.kind, Error::UnknownTransaction);
    assert_eq!(err.description, "Payload is not an 8-byte little-endian u64 value");
    let err = plan_call("", 1, &[0u8; 9], &bytes).unwrap_err();
    assert_eq!(err.kind, Error::UnknownTransaction);
}

#[test]
fn payload_wider_than_u32_is_truncated_for_add_one() {
    let call = plan_call("", 0, &(0x1_0000_0005u64).to_le_bytes(), &vec![]).unwrap();
    assert_eq!(call.args, vec![5]);
}

#[test]
fn payload_decodes_little_endian() {
    assert_eq!(decode_u64(&1000u64.to_le_bytes()), Some(1000));
    assert_eq!(decode_u64(&[1, 2, 3, 4, 5, 6, 7, 8]), Some(0x0807_0605_0403_0201));
    assert_eq!(decode_u64(&[0xff; 8]), Some(u64::MAX));
    assert_eq!(decode_u64(&[]), None);
    assert_eq!(decode_u64(&[0; 7]), None);
}

#[test]
fn trapped_call_surfaces_as_function_call_error() {
    let err = finish_call("", 1, Err(VMError::FunctionCallError)).unwrap_err();
    assert_eq!(err.kind, Error::Vm(VMError::FunctionCallError));
    assert_eq!(err.description, "Guest call failed while executing #1");
    assert_eq!(
        finish_call("", 0, Ok(ReturnData::Value(vec![3]))),
        Ok(ReturnData::Value(vec![3]))
    );
}

#[test]
fn stopped_service_is_switched_off() {
    let mut runtime = runtime_with(&["counter"]);
    let artifact = ArtifactId::wasm("counter", v111());
    runtime.update_service_status(&active(2, "test_service", artifact.clone()));
    assert!(runtime.after_commit());
    assert!(!runtime.after_commit());
    let stopped = InstanceState {
        spec: InstanceSpec::new(2, "test_service", artifact),
        status: InstanceStatus::Stopped,
        data_version: None,
    };
    runtime.update_service_status(&stopped);
    assert!(runtime.after_commit());
    assert_eq!(runtime.execute(2, "", 0, &[0u8; 8]).unwrap_err().kind, Error::IncorrectCallInfo);
}

#[test]
fn frozen_and_migrating_services_are_switched_off() {
    let mut runtime = runtime_with(&["counter"]);
    let artifact = ArtifactId::wasm("counter", v111());
    for status in [InstanceStatus::Frozen, InstanceStatus::Migrating] {
        runtime.update_service_status(&active(2, "test_service", artifact.clone()));
        let state = InstanceState {
            spec: InstanceSpec::new(2, "test_service", artifact.clone()),
            status,
            data_version: None,
        };
        runtime.update_service_status(&state);
        assert_eq!(runtime.execute(2, "", 0, &[0u8; 8]).unwrap_err().kind, Error::IncorrectCallInfo);
    }
}

#[test]
fn migrated_data_loses_artifact_association() {
    let artifact = ArtifactId::wasm("counter", v111());
    let state = InstanceState {
        spec: InstanceSpec::new(2, "test_service", artifact.clone()),
        status: InstanceStatus::Active,
        data_version: Some(Version::new(2, 0, 0)),
    };
    assert_eq!(state.associated_artifact(), None);
    let state = InstanceState {
        spec: InstanceSpec::new(2, "test_service", artifact.clone()),
        status: InstanceStatus::Active,
        data_version: Some(v111()),
    };
    assert_eq!(state.associated_artifact(), Some(artifact));
}

#[test]
fn repeated_status_update_reuses_instance() {
    let mut runtime = runtime_with(&["counter"]);
    let artifact = ArtifactId::wasm("counter", v111());
    let state = active(2, "test_service", artifact);
    runtime.update_service_status(&state);
    assert!(runtime.after_commit());
    runtime.update_service_status(&state);
    assert!(!runtime.after_commit());
}

#[test]
fn upgrade_replaces_instance_and_mismatch_is_refused() {
    let mut builder = WasmRuntimeBuilder::new();
    builder = builder.with_factory("counter", WasmService::new("v1", vec![1]));
    let mut runtime = builder.build();
    let v1 = ArtifactId::wasm("counter", v111());
    let v2 = ArtifactId::new(WASM_RUNTIME_ID, "counter".to_string(), Version::new(1, 2, 0));
    let other = ArtifactId::wasm("other", v111());
    runtime.update_service_status(&active(2, "test_service", v1.clone()));
    assert!(v2.is_upgrade_of(&v1));
    assert!(!v1.is_upgrade_of(&v2));
    // The upgrade is not in the catalog, and an unrelated artifact is no upgrade.
    assert!(!runtime.can_update_service_status(&active(2, "test_service", v2)));
    assert!(!runtime.can_update_service_status(&active(2, "test_service", other)));
    assert!(runtime.can_update_service_status(&active(2, "test_service", v1)));
}

#[test]
fn unsupported_operations_fail() {
    let runtime = runtime_with(&["counter"]);
    let artifact = ArtifactId::wasm("counter", v111());
    let spec = InstanceSpec::new(2, "test_service", artifact.clone());
    assert_eq!(
        runtime.initiate_resuming_service(&spec, &artifact, vec![]).unwrap_err().kind,
        Error::NotSupported
    );
    assert_eq!(runtime.migrate(&artifact, &Version::new(2, 0, 0)).unwrap_err().kind, Error::NotSupported);
    assert!(runtime.before_transactions(2).is_ok());
    assert!(runtime.after_transactions(2).is_ok());
}

#[test]
fn artifact_rendering() {
    assert_eq!(ArtifactId::wasm("test_service", v111()).to_text(), "2:test_service:1.1.1");
    assert_eq!(Version::new(10, 0, 123).to_text(), "10.0.123");
    assert!(Version::new(1, 2, 0).is_newer_than(&Version::new(1, 1, 9)));
    assert!(!Version::new(1, 1, 1).is_newer_than(&Version::new(1, 1, 1)));
}

#[test]
fn counter_service_defaults() {
    let spec = CounterServiceImpl.default_instance();
    assert_eq!(spec.id, CounterServiceImpl::INSTANCE_ID);
    assert_eq!(spec.id, 2);
    assert_eq!(spec.name, "test_service");
    assert_eq!(CounterServiceImpl.instance_name(), "test_service");
    assert_eq!(spec.artifact, CounterServiceImpl.artifact_id());
    assert_eq!(spec.artifact.to_text(), "2:test_service:1.1.1");
}

#[test]
fn basic_runtime_workflow() {
    let mut runtime = WasmRuntimeBuilder::new()
        .with_factory("test_service", WasmService::new("counter-service", counter_bytes()))
        .build_for_tests();
    // Deploy the service artifact.
    let test_service_artifact = CounterServiceImpl.artifact_id();
    assert_eq!(runtime.deploy_artifact(test_service_artifact.clone(), vec![]), Ok(()));
    assert!(runtime.is_artifact_deployed(&test_service_artifact));

    // Add the service instance.
    let test_instance = CounterServiceImpl.default_instance();
    assert!(runtime
        .initiate_adding_service(&test_instance, &test_service_artifact, vec![])
        .is_ok());
    let state = InstanceState {
        spec: test_instance.clone(),
        status: InstanceStatus::Active,
        data_version: None,
    };
    runtime.update_service_status(&state);
    assert!(runtime.after_commit());

    // Increment the counter.
    let call = runtime.execute(test_instance.id, "", 0, &1_000_u64.to_le_bytes()).unwrap();
    assert_eq!(call.args, vec![1000]);
    assert!(runtime.before_transactions(CounterServiceImpl::INSTANCE_ID).is_ok());
    assert!(runtime.after_transactions(CounterServiceImpl::INSTANCE_ID).is_ok());

    // Reset the counter.
    let call = runtime.execute(test_instance.id, "", 1, &10_u64.to_le_bytes()).unwrap();
    assert_eq!(call.export, "ext_read_vec");

    // Stop the service instance.
    let stopped = InstanceState {
        spec: test_instance.clone(),
        status: InstanceStatus::Stopped,
        data_version: None,
    };
    runtime.update_service_status(&stopped);
    assert!(runtime.after_commit());
    assert_eq!(
        runtime.execute(test_instance.id, "", 0, &1_000_u64.to_le_bytes()).unwrap_err().kind,
        Error::IncorrectCallInfo
    );
}

#[test]
fn instances_are_found_by_name() {
    let mut runtime = runtime_with(&["counter"]);
    let artifact = ArtifactId::wasm("counter", v111());
    runtime.update_service_status(&active(2, "test_service", artifact.clone()));
    runtime.update_service_status(&active(3, "second", artifact.clone()));
    assert_eq!(runtime.instance_id_by_name(&"test_service".to_string()), Some(2));
    assert_eq!(runtime.instance_id_by_name(&"second".to_string()), Some(3));
    assert_eq!(runtime.instance_id_by_name(&"missing".to_string()), None);
    let stopped = InstanceState {
        spec: InstanceSpec::new(2, "test_service", artifact.clone()),
        status: InstanceStatus::Stopped,
        data_version: None,
    };
    runtime.update_service_status(&stopped);
    assert_eq!(runtime.instance_id_by_name(&"test_service".to_string()), None);
    assert_eq!(runtime.instance_id_by_name(&"second".to_string()), Some(3));
}

#[test]
fn name_taken_by_another_instance_is_refused() {
    let mut runtime = runtime_with(&["counter"]);
    let artifact = ArtifactId::wasm("counter", v111());
    runtime.update_service_status(&active(2, "test_service", artifact.clone()));
    assert!(!runtime.can_update_service_status(&active(3, "test_service", artifact.clone())));
    assert!(runtime.can_update_service_status(&active(3, "other_name", artifact)));
}

#[test]
fn upgrade_keeps_name_index() {
    let mut runtime = WasmRuntimeBuilder::new()
        .with_factory("counter", WasmService::new("v1", vec![1]))
        .build();
    let v1 = ArtifactId::wasm("counter", v111());
    runtime.update_service_status(&active(2, "test_service", v1));
    let state = active(2, "renamed", ArtifactId::wasm("counter", v111()));
    assert!(runtime.can_update_service_status(&state));
    runtime.update_service_status(&state);
    assert_eq!(runtime.instance_id_by_name(&"test_service".to_string()), Some(2));
}
