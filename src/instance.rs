use vstd::prelude::*;

use crate::artifact::{ArtifactId, ArtifactKey, Version};

verus! {

/// Status of a service instance, as the enclosing blockchain reports it.
#[derive(Debug, Clone, Copy, PartialEq, Eq, Structural)]
pub enum InstanceStatus {
    Active,
    Stopped,
    Frozen,
    Migrating,
}

impl InstanceStatus {
    /// Whether the status lets the service be executed: only an active one does.
    pub fn provides_read_access(&self) -> (r: bool)
        ensures
            r == (*self == InstanceStatus::Active),
    {
        match self {
            InstanceStatus::Active => true,
            _ => false,
        }
    }
}

/// What identifies a service instance: its numeric id, its name and its artifact.
#[derive(Debug)]
pub struct InstanceSpec {
    pub id: u32,
    pub name: String,
    pub artifact: ArtifactId,
}

impl Clone for InstanceSpec {
    fn clone(&self) -> (r: Self)
        ensures
            r.id == self.id,
            r.name@ == self.name@,
            r.artifact@ == self.artifact@,
    {
        InstanceSpec { id: self.id, name: self.name.clone(), artifact: self.artifact.clone() }
    }
}

impl InstanceSpec {
    pub fn new(id: u32, name: &str, artifact: ArtifactId) -> (r: InstanceSpec)
        ensures
            r.id == id,
            r.name@ == name@,
            r.artifact@ == artifact@,
    {
        InstanceSpec { id, name: String::from_str(name), artifact }
    }
}

/// Authoritative state of one service instance.
#[derive(Debug)]
pub struct InstanceState {
    pub spec: InstanceSpec,
    pub status: InstanceStatus,
    /// Version of the service's data, where a migration has moved it away from the
    /// artifact's own version.
    pub data_version: Option<Version>,
}

/// The artifact that the instance is bound to: none while migrating, or once its data
/// has moved to another version than the artifact's.
pub open spec fn associated_artifact_of(s: InstanceState) -> Option<ArtifactKey> {
    if s.status == InstanceStatus::Migrating {
        None
    } else {
        match s.data_version {
            Some(v) => if v == s.spec.artifact.version {
                Some(s.spec.artifact@)
            } else {
                None
            },
            None => Some(s.spec.artifact@),
        }
    }
}

impl InstanceState {
    /// The artifact that the instance is bound to, if any.
    pub fn associated_artifact(&self) -> (r: Option<ArtifactId>)
        ensures
            r matches Some(a) ==> associated_artifact_of(*self) == Some(a@),
            r is None ==> associated_artifact_of(*self) is None,
    {
        if self.status == InstanceStatus::Migrating {
            return None;
        }
        match self.data_version {
            Some(v) => {
                if v == self.spec.artifact.version {
                    Some(self.spec.artifact.clone())
                } else {
                    None
                }
            },
            None => Some(self.spec.artifact.clone()),
        }
    }
}

} // verus!
