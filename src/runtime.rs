use std::collections::HashMap;
use vstd::prelude::*;

use crate::artifact::{artifact_text, is_upgrade, ArtifactId, ArtifactKey, Version, WASM_RUNTIME_ID};
use crate::catalog::{
    catalog_insert, catalog_keys, catalog_map, catalog_text, find_artifact, joined,
    lemma_catalog_lookup, undeployable_text,
};
use crate::dispatch::{call_planned, plan_call, GuestCall};
use crate::error::VMError;
use crate::instance::{associated_artifact_of, InstanceSpec, InstanceState, InstanceStatus};
use crate::service::{ServiceKey, WasmService};

verus! {

broadcast use vstd::std_specs::hash::group_hash_axioms;

/// Kind of a failure reported to the enclosing dispatcher.
#[derive(Debug, Clone, PartialEq)]
pub enum Error {
    /// The deploy request carried parameters, which this runtime does not take.
    IncorrectArtifactId,
    /// The artifact is not in the catalog of available artifacts.
    UnableToDeploy,
    /// No running service instance has the requested id.
    IncorrectCallInfo,
    /// No guest export answers the requested interface and method, or the payload does
    /// not decode.
    UnknownTransaction,
    /// The operation is not supported by this runtime.
    NotSupported,
    /// The guest call failed.
    Vm(VMError),
}

/// A failure with a human-readable description.
#[derive(Debug, Clone, PartialEq)]
pub struct ExecutionError {
    pub kind: Error,
    pub description: String,
}

fn find_key(v: &Vec<ArtifactId>, a: &ArtifactId) -> (r: Option<usize>)
    ensures
        r matches Some(i) ==> i < v@.len() && v@[i as int]@ == a@,
        r is None ==> forall|j: int| 0 <= j < v@.len() ==> v@[j]@ != a@,
{
    let mut i: usize = 0;
    while i < v.len()
        invariant
            i <= v@.len(),
            forall|j: int| 0 <= j < i ==> v@[j]@ != a@,
        decreases v@.len() - i,
    {
        if v[i].eq(a) {
            return Some(i);
        }
        i = i + 1;
    }
    None
}

/// Builder of a `WasmRuntime`: collects the catalog of available artifacts.
#[derive(Debug, Default)]
pub struct WasmRuntimeBuilder {
    available_artifacts: Vec<(ArtifactId, WasmService)>,
}

impl WasmRuntimeBuilder {
    /// The available artifacts, in the order they were first registered.
    pub closed spec fn catalog_order(&self) -> Seq<ArtifactKey> {
        catalog_keys(self.available_artifacts@)
    }

    /// The service registered under each available artifact.
    pub closed spec fn catalog(&self) -> Map<ArtifactKey, ServiceKey> {
        catalog_map(self.available_artifacts@)
    }

    pub closed spec fn wf(&self) -> bool {
        catalog_keys(self.available_artifacts@).no_duplicates()
    }

    /// A builder with an empty catalog.
    pub fn new() -> (r: Self)
        ensures
            r.wf(),
            r.catalog() == Map::<ArtifactKey, ServiceKey>::empty(),
            r.catalog_order() == Seq::<ArtifactKey>::empty(),
    {
        let r = WasmRuntimeBuilder { available_artifacts: Vec::new() };
        assert(r.catalog() =~= Map::<ArtifactKey, ServiceKey>::empty());
        r
    }

    /// Registers `service` as the artifact `artifact_name` of this runtime, version 1.1.1;
    /// a later registration under the same name replaces an earlier one.
    pub fn with_factory(self, artifact_name: &str, service: WasmService) -> (r: Self)
        requires
            self.wf(),
        ensures
            r.wf(),
            r.catalog() == self.catalog().insert(
                ArtifactKey {
                    runtime_id: WASM_RUNTIME_ID,
                    name: artifact_name@,
                    version: Version { major: 1, minor: 1, patch: 1 },
                },
                service@,
            ),
            r.catalog_order() == if self.catalog_order().contains(
                ArtifactKey {
                    runtime_id: WASM_RUNTIME_ID,
                    name: artifact_name@,
                    version: Version { major: 1, minor: 1, patch: 1 },
                },
            ) {
                self.catalog_order()
            } else {
                self.catalog_order().push(
                    ArtifactKey {
                        runtime_id: WASM_RUNTIME_ID,
                        name: artifact_name@,
                        version: Version { major: 1, minor: 1, patch: 1 },
                    },
                )
            },
    {
        let artifact = ArtifactId::wasm(artifact_name, Version::new(1, 1, 1));
        let mut available_artifacts = self.available_artifacts;
        catalog_insert(&mut available_artifacts, artifact, service);
        WasmRuntimeBuilder { available_artifacts }
    }

    /// The runtime over this catalog, with nothing deployed and no instance running.
    pub fn build(self) -> (r: WasmRuntime)
        requires
            self.wf(),
        ensures
            r.wf(),
            r.catalog() == self.catalog(),
            r.catalog_order() == self.catalog_order(),
            r.deployed() == Set::<ArtifactKey>::empty(),
            r.instances() == Map::<u32, InstanceView>::empty(),
            r.services_changed(),
    {
        let r = WasmRuntime {
            available_artifacts: self.available_artifacts,
            deployed_artifacts: Vec::new(),
            started_services: HashMap::new(),
            started_services_by_name: Vec::new(),
            changed_services_since_last_block: true,
        };
        assert(r.deployed() =~= Set::<ArtifactKey>::empty());
        assert(r.instances() =~= Map::<u32, InstanceView>::empty());
        r
    }

    /// Same as `build`.
    pub fn build_for_tests(self) -> (r: WasmRuntime)
        requires
            self.wf(),
        ensures
            r.wf(),
            r.catalog() == self.catalog(),
            r.catalog_order() == self.catalog_order(),
            r.deployed() == Set::<ArtifactKey>::empty(),
            r.instances() == Map::<u32, InstanceView>::empty(),
            r.services_changed(),
    {
        self.build()
    }
}

/// The mathematical value of a running instance (its id is its key in the table).
pub struct InstanceView {
    pub name: Seq<char>,
    pub artifact: ArtifactKey,
    pub service: ServiceKey,
}

#[derive(Debug)]
struct Instance {
    id: u32,
    name: String,
    service: WasmService,
    artifact_id: ArtifactId,
}

impl View for Instance {
    type V = InstanceView;

    closed spec fn view(&self) -> InstanceView {
        InstanceView { name: self.name@, artifact: self.artifact_id@, service: self.service@ }
    }
}

/// The wasm runtime: the catalog of available artifacts, the deployed ones, and the
/// running service instances, indexed by id and by name.
#[derive(Debug)]
pub struct WasmRuntime {
    available_artifacts: Vec<(ArtifactId, WasmService)>,
    deployed_artifacts: Vec<ArtifactId>,
    started_services: HashMap<u32, Instance>,
    started_services_by_name: Vec<(String, u32)>,
    changed_services_since_last_block: bool,
}

/// No two running instances share a name: ids and names are in one-to-one correspondence.
pub open spec fn names_unique(instances: Map<u32, InstanceView>) -> bool {
    forall|a: u32, b: u32|
        instances.contains_key(a) && instances.contains_key(b) && a != b ==> #[trigger] instances[a].name
            != #[trigger] instances[b].name
}

/// No running instance other than `id` is named `name`.
pub open spec fn name_free_for(instances: Map<u32, InstanceView>, id: u32, name: Seq<char>) -> bool {
    forall|other: u32| #[trigger]
        instances.contains_key(other) && other != id ==> instances[other].name != name
}

fn find_by_id(index: &Vec<(String, u32)>, id: u32) -> (r: Option<usize>)
    ensures
        r matches Some(k) ==> k < index@.len() && index@[k as int].1 == id,
        r is None ==> forall|k: int| 0 <= k < index@.len() ==> index@[k].1 != id,
{
    let mut k: usize = 0;
    while k < index.len()
        invariant
            k <= index@.len(),
            forall|j: int| 0 <= j < k ==> index@[j].1 != id,
        decreases index@.len() - k,
    {
        if index[k].1 == id {
            return Some(k);
        }
        k = k + 1;
    }
    None
}

fn find_by_name(index: &Vec<(String, u32)>, name: &String) -> (r: Option<usize>)
    ensures
        r matches Some(k) ==> k < index@.len() && index@[k as int].0@ == name@,
        r is None ==> forall|k: int| 0 <= k < index@.len() ==> index@[k].0@ != name@,
{
    let mut k: usize = 0;
    while k < index.len()
        invariant
            k <= index@.len(),
            forall|j: int| 0 <= j < k ==> index@[j].0@ != name@,
        decreases index@.len() - k,
    {
        if index[k].0.eq(name) {
            return Some(k);
        }
        k = k + 1;
    }
    None
}

/// Where an instance state grants execution and binds an artifact, that artifact.
pub open spec fn bound_artifact(state: InstanceState) -> Option<ArtifactKey> {
    if state.status == InstanceStatus::Active {
        associated_artifact_of(state)
    } else {
        None
    }
}

/// The instance table after reconciling it with `state`.
pub open spec fn reconciled(
    instances: Map<u32, InstanceView>,
    catalog: Map<ArtifactKey, ServiceKey>,
    state: InstanceState,
) -> Map<u32, InstanceView> {
    let id = state.spec.id;
    match bound_artifact(state) {
        Some(a) => if instances.contains_key(id) && instances[id].artifact == a {
            instances
        } else {
            instances.insert(id, InstanceView { name: state.spec.name@, artifact: a, service: catalog[a] })
        },
        None => instances.remove(id),
    }
}

/// `state` is one the runtime is prepared for: an artifact it must start is in the
/// catalog, a running instance is either on that artifact or on an earlier version of
/// it, and an instance it must start does not take the name of another one.
pub open spec fn reconcilable(
    instances: Map<u32, InstanceView>,
    catalog: Map<ArtifactKey, ServiceKey>,
    state: InstanceState,
) -> bool {
    let id = state.spec.id;
    match bound_artifact(state) {
        Some(a) => if instances.contains_key(id) {
            instances[id].artifact == a || (is_upgrade(a, instances[id].artifact)
                && catalog.contains_key(a) && name_free_for(instances, id, state.spec.name@))
        } else {
            catalog.contains_key(a) && name_free_for(instances, id, state.spec.name@)
        },
        None => true,
    }
}

impl WasmRuntime {
    pub const NAME: &'static str = "wasm";

    /// A builder with an empty catalog.
    pub fn builder() -> (r: WasmRuntimeBuilder)
        ensures
            r.wf(),
            r.catalog() == Map::<ArtifactKey, ServiceKey>::empty(),
            r.catalog_order() == Seq::<ArtifactKey>::empty(),
    {
        WasmRuntimeBuilder::new()
    }

    /// The available artifacts, in catalog order.
    pub closed spec fn catalog_order(&self) -> Seq<ArtifactKey> {
        catalog_keys(self.available_artifacts@)
    }

    /// The service registered under each available artifact.
    pub closed spec fn catalog(&self) -> Map<ArtifactKey, ServiceKey> {
        catalog_map(self.available_artifacts@)
    }

    /// The deployed artifacts.
    pub closed spec fn deployed(&self) -> Set<ArtifactKey> {
        Set::new(|a: ArtifactKey| exists|i: int| 0 <= i < self.deployed_artifacts@.len() && #[trigger] self.deployed_artifacts@[i]@ == a)
    }

    /// The running instances, by id.
    pub closed spec fn instances(&self) -> Map<u32, InstanceView> {
        self.started_services@.map_values(|i: Instance| i@)
    }

    /// Whether the set of running instances changed since the last commit.
    pub closed spec fn services_changed(&self) -> bool {
        self.changed_services_since_last_block
    }

    /// A deploy request for `a` with parameters `spec` is one the caller may make: only
    /// one deploy of an artifact is ever made with empty parameters.
    pub open spec fn may_deploy(&self, a: ArtifactKey, spec: Seq<u8>) -> bool {
        spec.len() == 0 ==> !self.deployed().contains(a)
    }

    pub closed spec fn wf(&self) -> bool {
        &&& catalog_keys(self.available_artifacts@).no_duplicates()
        &&& forall|i: int, j: int|
            0 <= i < j < self.deployed_artifacts@.len() ==> self.deployed_artifacts@[i]@
                != self.deployed_artifacts@[j]@
        &&& forall|id: u32| #[trigger]
            self.started_services@.contains_key(id) ==> self.started_services@[id].id == id
        &&& names_unique(self.instances())
        &&& forall|k: int|
            0 <= k < self.started_services_by_name@.len() ==> {
                let e = #[trigger] self.started_services_by_name@[k];
                &&& self.started_services@.contains_key(e.1)
                &&& self.started_services@[e.1].name@ == e.0@
            }
        &&& forall|id: u32| #[trigger]
            self.started_services@.contains_key(id) ==> exists|k: int|
                0 <= k < self.started_services_by_name@.len()
                    && #[trigger] self.started_services_by_name@[k].1 == id
        &&& forall|k: int, j: int|
            0 <= k < j < self.started_services_by_name@.len() ==> self.started_services_by_name@[k].1
                != self.started_services_by_name@[j].1
    }

    /// Ids and names of running instances correspond one to one.
    pub proof fn lemma_instance_names_unique(&self)
        requires
            self.wf(),
        ensures
            names_unique(self.instances()),
    {
    }

    /// The id of the running instance named `name`, if any.
    pub fn instance_id_by_name(&self, name: &String) -> (r: Option<u32>)
        requires
            self.wf(),
        ensures
            r matches Some(id) ==> self.instances().contains_key(id) && self.instances()[id].name
                == name@,
            r is None ==> forall|id: u32| #[trigger]
                self.instances().contains_key(id) ==> self.instances()[id].name != name@,
    {
        match find_by_name(&self.started_services_by_name, name) {
            Some(k) => Some(self.started_services_by_name[k].1),
            None => {
                assert forall|id: u32| #[trigger]
                    self.instances().contains_key(id) implies self.instances()[id].name != name@ by {
                    assert(self.started_services@.contains_key(id));
                    let k = choose|k: int|
                        0 <= k < self.started_services_by_name@.len()
                            && #[trigger] self.started_services_by_name@[k].1 == id;
                    assert(self.started_services_by_name@[k].0@ != name@);
                }
                None
            },
        }
    }

    /// Changing neither the instance table nor its index keeps their invariants.
    proof fn lemma_table_frame(before: &WasmRuntime, after: &WasmRuntime)
        requires
            before.wf(),
            after.started_services == before.started_services,
            after.started_services_by_name == before.started_services_by_name,
            catalog_keys(after.available_artifacts@).no_duplicates(),
            forall|i: int, j: int|
                0 <= i < j < after.deployed_artifacts@.len() ==> after.deployed_artifacts@[i]@
                    != after.deployed_artifacts@[j]@,
        ensures
            after.wf(),
            after.instances() == before.instances(),
    {
        assert forall|id: u32| #[trigger]
            after.started_services@.contains_key(id) implies exists|k: int|
                0 <= k < after.started_services_by_name@.len()
                    && #[trigger] after.started_services_by_name@[k].1 == id by {
            let k = choose|k: int|
                0 <= k < before.started_services_by_name@.len()
                    && #[trigger] before.started_services_by_name@[k].1 == id;
            assert(after.started_services_by_name@[k].1 == id);
        }
    }

    /// The catalog of available artifacts, rendered for messages.
    fn artifacts_to_pretty_string(&self) -> (r: String)
        ensures
            r@ == catalog_text(self.catalog_order()),
    {
        let ghost keys = catalog_keys(self.available_artifacts@);
        let ghost texts = keys.map_values(|a: ArtifactKey| artifact_text(a));
        let n = self.available_artifacts.len();
        if n == 0 {
            proof {
                reveal_strlit("None");
            }
            return String::from_str("None");
        }
        let mut s = self.available_artifacts[0].0.to_text();
        assert(texts.subrange(0, 1) =~= seq![texts[0]]);
        let mut i: usize = 1;
        while i < n
            invariant
                1 <= i <= n,
                n == self.available_artifacts@.len(),
                keys == catalog_keys(self.available_artifacts@),
                texts == keys.map_values(|a: ArtifactKey| artifact_text(a)),
                s@ == joined(texts.subrange(0, i as int)),
            decreases n - i,
        {
            s.append(", ");
            let t = self.available_artifacts[i].0.to_text();
            s.append(t.as_str());
            proof {
                reveal_strlit(", ");
                assert(texts.subrange(0, i + 1).drop_last() =~= texts.subrange(0, i as int));
                assert(texts[i as int] == t@);
            }
            i = i + 1;
        }
        assert(texts.subrange(0, n as int) =~= texts);
        s
    }

    fn deploy(&mut self, artifact: &ArtifactId) -> (r: Result<(), ExecutionError>)
        requires
            old(self).wf(),
            !old(self).deployed().contains(artifact@),
        ensures
            final(self).wf(),
            final(self).catalog_order() == old(self).catalog_order(),
            final(self).catalog() == old(self).catalog(),
            final(self).instances() == old(self).instances(),
            final(self).services_changed() == old(self).services_changed(),
            old(self).catalog().contains_key(artifact@) ==> {
                &&& r is Ok
                &&& final(self).deployed() == old(self).deployed().insert(artifact@)
            },
            !old(self).catalog().contains_key(artifact@) ==> {
                &&& final(self).deployed() == old(self).deployed()
                &&& r matches Err(e) && e.kind == Error::UnableToDeploy && e.description@
                    == undeployable_text(artifact@, old(self).catalog_order())
            },
    {
        match find_artifact(&self.available_artifacts, artifact) {
            Some(i) => {
                proof {
                    lemma_catalog_lookup(self.available_artifacts@, i as int);
                }
            },
            None => {
                let mut description = String::from_str(
                    "Runtime failed to deploy artifact with id ",
                );
                let a = artifact.to_text();
                description.append(a.as_str());
                description.append(
                    ", it is not listed among available artifacts. Available artifacts: ",
                );
                let listing = self.artifacts_to_pretty_string();
                description.append(listing.as_str());
                return Err(ExecutionError { kind: Error::UnableToDeploy, description });
            },
        }
        self.deployed_artifacts.push(artifact.clone());
        assert(self.deployed() =~= old(self).deployed().insert(artifact@)) by {
            assert(self.deployed_artifacts@[self.deployed_artifacts@.len() - 1]@ == artifact@);
            assert forall|a: ArtifactKey| old(self).deployed().contains(a) implies self.deployed().contains(a) by {
                let i = choose|i: int| 0 <= i < old(self).deployed_artifacts@.len() && #[trigger] old(self).deployed_artifacts@[i]@ == a;
                assert(self.deployed_artifacts@[i] == old(self).deployed_artifacts@[i]);
            }
        }
        proof {
            Self::lemma_table_frame(old(self), self);
        }
        Ok(())
    }

    /// Marks `artifact` deployed. Fails with `IncorrectArtifactId` where `spec` is not
    /// empty, and with `UnableToDeploy` where the artifact is not in the catalog. A second
    /// deploy of a deployed artifact is a fault of the caller.
    pub fn deploy_artifact(&mut self, artifact: ArtifactId, spec: Vec<u8>) -> (r: Result<
        (),
        ExecutionError,
    >)
        requires
            old(self).wf(),
            old(self).may_deploy(artifact@, spec@),
        ensures
            final(self).wf(),
            final(self).catalog_order() == old(self).catalog_order(),
            final(self).catalog() == old(self).catalog(),
            final(self).instances() == old(self).instances(),
            final(self).services_changed() == old(self).services_changed(),
            spec@.len() != 0 ==> {
                &&& final(self).deployed() == old(self).deployed()
                &&& r matches Err(e) && e.kind == Error::IncorrectArtifactId
                    && e.description@.len() == 0
            },
            spec@.len() == 0 && old(self).catalog().contains_key(artifact@) ==> {
                &&& r is Ok
                &&& final(self).deployed() == old(self).deployed().insert(artifact@)
            },
            spec@.len() == 0 && !old(self).catalog().contains_key(artifact@) ==> {
                &&& final(self).deployed() == old(self).deployed()
                &&& r matches Err(e) && e.kind == Error::UnableToDeploy && e.description@
                    == undeployable_text(artifact@, old(self).catalog_order())
            },
    {
        if spec.len() == 0 {
            self.deploy(&artifact)
        } else {
            Err(ExecutionError { kind: Error::IncorrectArtifactId, description: String::new() })
        }
    }

    /// Whether `id` is deployed.
    pub fn is_artifact_deployed(&self, id: &ArtifactId) -> (r: bool)
        requires
            self.wf(),
        ensures
            r == self.deployed().contains(id@),
    {
        match find_key(&self.deployed_artifacts, id) {
            Some(i) => true,
            None => false,
        }
    }

    /// Removes `artifact` from the deployed set; running instances are left as they are.
    pub fn unload_artifact(&mut self, artifact: &ArtifactId)
        requires
            old(self).wf(),
            old(self).deployed().contains(artifact@),
        ensures
            final(self).wf(),
            final(self).deployed() == old(self).deployed().remove(artifact@),
            final(self).catalog_order() == old(self).catalog_order(),
            final(self).catalog() == old(self).catalog(),
            final(self).instances() == old(self).instances(),
            final(self).services_changed() == old(self).services_changed(),
    {
        match find_key(&self.deployed_artifacts, artifact) {
            Some(i) => {
                self.deployed_artifacts.remove(i);
                let ghost old_v = old(self).deployed_artifacts@;
                assert forall|a: ArtifactKey| #[trigger] self.deployed().contains(a) <==> old(self).deployed().remove(artifact@).contains(a) by {
                    if self.deployed().contains(a) {
                        let k = choose|k: int| 0 <= k < self.deployed_artifacts@.len() && #[trigger] self.deployed_artifacts@[k]@ == a;
                        if k < i {
                            assert(old_v[k]@ == a);
                        } else {
                            assert(old_v[k + 1]@ == a);
                        }
                    }
                    if old(self).deployed().remove(artifact@).contains(a) {
                        let k = choose|k: int| 0 <= k < old_v.len() && #[trigger] old_v[k]@ == a;
                        if k < i {
                            assert(self.deployed_artifacts@[k]@ == a);
                        } else {
                            assert(k != i);
                            assert(self.deployed_artifacts@[k - 1]@ == a);
                        }
                    }
                }
                assert(self.deployed() =~= old(self).deployed().remove(artifact@));
                proof {
                    Self::lemma_table_frame(old(self), self);
                }
            },
            None => {},
        }
    }

    fn new_service(&self, artifact: &ArtifactId, spec: &InstanceSpec) -> (r: Instance)
        requires
            self.wf(),
            self.catalog().contains_key(artifact@),
        ensures
            r.id == spec.id,
            r@ == (InstanceView {
                name: spec.name@,
                artifact: artifact@,
                service: self.catalog()[artifact@],
            }),
    {
        let service = match find_artifact(&self.available_artifacts, artifact) {
            Some(i) => {
                proof {
                    lemma_catalog_lookup(self.available_artifacts@, i as int);
                }
                self.available_artifacts[i].1.clone()
            },
            None => {
                proof {
                    assert(false);
                }
                WasmService::new("", Vec::new())
            },
        };
        Instance { id: spec.id, name: spec.name.clone(), service, artifact_id: artifact.clone() }
    }

    fn new_service_if_needed(&self, artifact: &ArtifactId, spec: &InstanceSpec) -> (r: Option<
        Instance,
    >)
        requires
            self.wf(),
            !(self.instances().contains_key(spec.id) && self.instances()[spec.id].artifact
                == artifact@) ==> self.catalog().contains_key(artifact@),
        ensures
            self.instances().contains_key(spec.id) && self.instances()[spec.id].artifact
                == artifact@ ==> r is None,
            !(self.instances().contains_key(spec.id) && self.instances()[spec.id].artifact
                == artifact@) ==> (r matches Some(i) && i.id == spec.id && i@ == (InstanceView {
                name: spec.name@,
                artifact: artifact@,
                service: self.catalog()[artifact@],
            })),
    {
        match self.started_services.get(&spec.id) {
            Some(instance) => {
                if instance.artifact_id.eq(artifact) {
                    return None;
                }
            },
            None => {},
        }
        Some(self.new_service(artifact, spec))
    }

    fn add_started_service(&mut self, instance: Instance)
        requires
            old(self).wf(),
            instance@.name == instance.name@,
            name_free_for(old(self).instances(), instance.id, instance@.name),
        ensures
            final(self).wf(),
            final(self).instances() == old(self).instances().insert(instance.id, instance@),
            final(self).services_changed(),
            final(self).catalog_order() == old(self).catalog_order(),
            final(self).catalog() == old(self).catalog(),
            final(self).deployed() == old(self).deployed(),
    {
        let ghost v = instance@;
        let id = instance.id;
        let name = instance.name.clone();
        let ghost index0 = self.started_services_by_name@;
        let removed = find_by_id(&self.started_services_by_name, id);
        match removed {
            Some(k) => {
                self.started_services_by_name.remove(k);
            },
            None => {},
        }
        let ghost index1 = self.started_services_by_name@;
        self.started_services_by_name.push((name, id));
        self.started_services.insert(id, instance);
        self.changed_services_since_last_block = true;
        assert(self.instances() =~= old(self).instances().insert(id, v));
        assert(self.deployed() =~= old(self).deployed());
        proof {
            let index = self.started_services_by_name@;
            let last = index.len() - 1;
            assert(index[last].1 == id);
            // Every entry of `index1` is an entry of `index0` other than the one for `id`.
            assert forall|j: int| 0 <= j < index1.len() implies (index1[j].1 != id && exists|
                i: int,
            | 0 <= i < index0.len() && index0[i] == #[trigger] index1[j]) by {
                match removed {
                    Some(k) => {
                        if j < k {
                            assert(index0[j] == index1[j]);
                        } else {
                            assert(index0[j + 1] == index1[j]);
                        }
                    },
                    None => {
                        assert(index0[j] == index1[j]);
                    },
                }
            }
            assert forall|j: int| 0 <= j < index.len() implies {
                let e = #[trigger] index[j];
                &&& self.started_services@.contains_key(e.1)
                &&& self.started_services@[e.1].name@ == e.0@
            } by {
                if j < last {
                    assert(index[j] == index1[j]);
                    let i = choose|i: int| 0 <= i < index0.len() && index0[i] == #[trigger] index1[j];
                    assert(index0[i] == index0[i]);
                }
            }
            assert forall|x: u32| #[trigger] self.started_services@.contains_key(x) implies exists|
                j: int,
            | 0 <= j < index.len() && #[trigger] index[j].1 == x by {
                if x == id {
                    assert(index[last].1 == x);
                } else {
                    assert(old(self).started_services@.contains_key(x));
                    let i = choose|i: int| 0 <= i < index0.len() && #[trigger] index0[i].1 == x;
                    match removed {
                        Some(k) => {
                            assert(i != k);
                            if i < k {
                                assert(index[i] == index0[i]);
                            } else {
                                assert(index[i - 1] == index0[i]);
                            }
                        },
                        None => {
                            assert(index[i] == index0[i]);
                        },
                    }
                }
            }
            assert forall|a: int, b: int| 0 <= a < b < index.len() implies index[a].1
                != index[b].1 by {
                if b < last {
                    match removed {
                        Some(k) => {
                            let ia = if a < k { a } else { a + 1 };
                            let ib = if b < k { b } else { b + 1 };
                            assert(index[a] == index0[ia]);
                            assert(index[b] == index0[ib]);
                        },
                        None => {
                            assert(index[a] == index0[a]);
                            assert(index[b] == index0[b]);
                        },
                    }
                } else {
                    assert(index[a] == index1[a]);
                }
            }
        }
    }

    fn remove_started_service(&mut self, id: u32)
        requires
            old(self).wf(),
        ensures
            final(self).wf(),
            final(self).instances() == old(self).instances().remove(id),
            final(self).services_changed() == (old(self).services_changed() || old(self).instances().contains_key(id)),
            final(self).catalog_order() == old(self).catalog_order(),
            final(self).catalog() == old(self).catalog(),
            final(self).deployed() == old(self).deployed(),
    {
        if self.started_services.contains_key(&id) {
            let ghost index0 = self.started_services_by_name@;
            let removed = find_by_id(&self.started_services_by_name, id);
            match removed {
                Some(k) => {
                    self.started_services_by_name.remove(k);
                },
                None => {},
            }
            self.started_services.remove(&id);
            self.changed_services_since_last_block = true;
            proof {
                let index = self.started_services_by_name@;
                assert forall|j: int| 0 <= j < index.len() implies {
                    let e = #[trigger] index[j];
                    &&& self.started_services@.contains_key(e.1)
                    &&& self.started_services@[e.1].name@ == e.0@
                } by {
                    match removed {
                        Some(k) => {
                            if j < k {
                                assert(index0[j] == index[j]);
                            } else {
                                assert(index0[j + 1] == index[j]);
                            }
                        },
                        None => {
                            assert(index0[j] == index[j]);
                        },
                    }
                }
                assert forall|x: u32| #[trigger] self.started_services@.contains_key(x) implies exists|
                    j: int,
                | 0 <= j < index.len() && #[trigger] index[j].1 == x by {
                    assert(old(self).started_services@.contains_key(x));
                    let i = choose|i: int| 0 <= i < index0.len() && #[trigger] index0[i].1 == x;
                    match removed {
                        Some(k) => {
                            assert(i != k);
                            if i < k {
                                assert(index[i] == index0[i]);
                            } else {
                                assert(index[i - 1] == index0[i]);
                            }
                        },
                        None => {
                            assert(index[i] == index0[i]);
                        },
                    }
                }
                assert forall|a: int, b: int| 0 <= a < b < index.len() implies index[a].1
                    != index[b].1 by {
                    match removed {
                        Some(k) => {
                            let ia = if a < k { a } else { a + 1 };
                            let ib = if b < k { b } else { b + 1 };
                            assert(index[a] == index0[ia]);
                            assert(index[b] == index0[ib]);
                        },
                        None => {
                            assert(index[a] == index0[a]);
                            assert(index[b] == index0[b]);
                        },
                    }
                }
            }
        }
        assert(self.instances() =~= old(self).instances().remove(id));
        assert(self.deployed() =~= old(self).deployed());
    }

    fn bound_artifact(state: &InstanceState) -> (r: Option<ArtifactId>)
        ensures
            r matches Some(a) ==> bound_artifact(*state) == Some(a@),
            r is None ==> bound_artifact(*state) is None,
    {
        if state.status.provides_read_access() {
            state.associated_artifact()
        } else {
            None
        }
    }

    /// Whether the runtime is prepared for `state` (see `reconcilable`); where it is not,
    /// reconciling would mean a fault in the caller's lifecycle workflow.
    pub fn can_update_service_status(&self, state: &InstanceState) -> (r: bool)
        requires
            self.wf(),
        ensures
            r == reconcilable(self.instances(), self.catalog(), *state),
    {
        match Self::bound_artifact(state) {
            Some(a) => {
                let in_catalog = match find_artifact(&self.available_artifacts, &a) {
                    Some(i) => {
                        proof {
                            lemma_catalog_lookup(self.available_artifacts@, i as int);
                        }
                        true
                    },
                    None => false,
                };
                let name_free = match self.instance_id_by_name(&state.spec.name) {
                    Some(other) => other == state.spec.id,
                    None => true,
                };
                proof {
                    if name_free {
                        assert forall|other: u32| #[trigger]
                            self.instances().contains_key(other) && other != state.spec.id
                                implies self.instances()[other].name != state.spec.name@ by {}
                    }
                }
                match self.started_services.get(&state.spec.id) {
                    Some(instance) => instance.artifact_id.eq(&a) || (a.is_upgrade_of(
                        &instance.artifact_id,
                    ) && in_catalog && name_free),
                    None => in_catalog && name_free,
                }
            },
            None => true,
        }
    }

    /// Reconciles the instance table with the authoritative `state` of one instance. Where
    /// the state grants execution and binds an artifact, the instance is started on it,
    /// unless it already runs on that artifact; otherwise the instance is dropped from the
    /// table.
    pub fn update_service_status(&mut self, state: &InstanceState)
        requires
            old(self).wf(),
            reconcilable(old(self).instances(), old(self).catalog(), *state),
        ensures
            final(self).wf(),
            final(self).instances() == reconciled(old(self).instances(), old(self).catalog(), *state),
            final(self).services_changed() == (old(self).services_changed() || final(self).instances() != old(self).instances()),
            final(self).catalog_order() == old(self).catalog_order(),
            final(self).catalog() == old(self).catalog(),
            final(self).deployed() == old(self).deployed(),
    {
        let id = state.spec.id;
        match Self::bound_artifact(state) {
            Some(a) => {
                match self.new_service_if_needed(&a, &state.spec) {
                    Some(instance) => {
                        self.add_started_service(instance);
                        proof {
                            assert(self.instances()[id].artifact == a@);
                            if old(self).instances().contains_key(id) {
                                assert(old(self).instances()[id].artifact != a@);
                                assert(self.instances()[id] != old(self).instances()[id]);
                            } else {
                                assert(self.instances().contains_key(id));
                            }
                        }
                    },
                    None => {},
                }
            },
            None => {
                self.remove_started_service(id);
                proof {
                    if !old(self).instances().contains_key(id) {
                        assert(self.instances() =~= old(self).instances());
                    } else {
                        assert(!self.instances().contains_key(id));
                    }
                }
            },
        }
    }

    /// Records that an instance is to be brought up on `artifact`; the guest module is
    /// instantiated only when it is first executed, so this always succeeds.
    pub fn initiate_adding_service(
        &self,
        spec: &InstanceSpec,
        artifact: &ArtifactId,
        parameters: Vec<u8>,
    ) -> (r: Result<(), ExecutionError>)
        ensures
            r is Ok,
    {
        Ok(())
    }

    /// Resuming a service is not supported: always fails with `NotSupported`.
    pub fn initiate_resuming_service(
        &self,
        spec: &InstanceSpec,
        artifact: &ArtifactId,
        parameters: Vec<u8>,
    ) -> (r: Result<(), ExecutionError>)
        ensures
            r matches Err(e) && e.kind == Error::NotSupported,
    {
        Err(
            ExecutionError {
                kind: Error::NotSupported,
                description: String::from_str("Resuming services is not supported"),
            },
        )
    }

    /// Data migration is not supported: always fails with `NotSupported`.
    pub fn migrate(&self, new_artifact: &ArtifactId, data_version: &Version) -> (r: Result<
        (),
        ExecutionError,
    >)
        ensures
            r matches Err(e) && e.kind == Error::NotSupported,
    {
        Err(
            ExecutionError {
                kind: Error::NotSupported,
                description: String::from_str("Data migration is not supported"),
            },
        )
    }

    /// Hook run before the transactions of a block; does nothing.
    pub fn before_transactions(&self, instance_id: u32) -> (r: Result<(), ExecutionError>)
        ensures
            r is Ok,
    {
        Ok(())
    }

    /// Hook run after the transactions of a block; does nothing.
    pub fn after_transactions(&self, instance_id: u32) -> (r: Result<(), ExecutionError>)
        ensures
            r is Ok,
    {
        Ok(())
    }

    /// Hook run after a block is committed: reports whether the set of running instances
    /// changed since the last commit, and starts counting anew.
    pub fn after_commit(&mut self) -> (r: bool)
        requires
            old(self).wf(),
        ensures
            final(self).wf(),
            r == old(self).services_changed(),
            !final(self).services_changed(),
            final(self).instances() == old(self).instances(),
            final(self).catalog_order() == old(self).catalog_order(),
            final(self).catalog() == old(self).catalog(),
            final(self).deployed() == old(self).deployed(),
    {
        let r = self.changed_services_since_last_block;
        self.changed_services_since_last_block = false;
        proof {
            Self::lemma_table_frame(old(self), self);
        }
        r
    }

    /// Plans the call of method `method_id` of `interface` on instance `instance_id`:
    /// fails with `IncorrectCallInfo` where no such instance runs, and otherwise as
    /// `plan_call` says, on the instance's bytecode. The runtime itself is left as it is.
    pub fn execute(&self, instance_id: u32, interface_name: &str, method_id: u32, payload: &[u8]) -> (r:
        Result<GuestCall, ExecutionError>)
        requires
            self.wf(),
        ensures
            !self.instances().contains_key(instance_id) ==> (r matches Err(e) && e.kind
                == Error::IncorrectCallInfo && e.description@.len() == 0),
            self.instances().contains_key(instance_id) ==> call_planned(
                r,
                interface_name@,
                method_id,
                payload@,
                self.instances()[instance_id].service.bytecode,
            ),
    {
        match self.started_services.get(&instance_id) {
            Some(instance) => plan_call(
                interface_name,
                method_id,
                payload,
                &instance.service.wasm_bytes,
            ),
            None => Err(
                ExecutionError { kind: Error::IncorrectCallInfo, description: String::new() },
            ),
        }
    }
}

} // verus!
