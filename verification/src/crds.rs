//! Custom resources of the cluster.
use crate::kube_objects::{ObjectMeta, ObjectMetaView};
use crate::reference_value::Timestamp;
use vstd::prelude::*;

verus! {

/// How a confidential cluster is to be set up.
#[derive(Debug, Clone)]
pub struct ConfidentialClusterSpec {
    pub trustee_image: String,
    pub pcrs_compute_image: String,
    pub register_server_image: String,
    pub public_trustee_addr: Option<String>,
    pub trustee_kbs_port: Option<i32>,
    pub register_server_port: Option<i32>,
}

impl Default for ConfidentialClusterSpec {
    /// No image and nothing optional.
    fn default() -> (spec: Self)
        ensures
            spec.trustee_image@ == Seq::<char>::empty(),
            spec.pcrs_compute_image@ == Seq::<char>::empty(),
            spec.register_server_image@ == Seq::<char>::empty(),
            spec.public_trustee_addr is None,
            spec.trustee_kbs_port is None,
            spec.register_server_port is None,
    {
        ConfidentialClusterSpec {
            trustee_image: String::new(),
            pcrs_compute_image: String::new(),
            register_server_image: String::new(),
            public_trustee_addr: None,
            trustee_kbs_port: None,
            register_server_port: None,
        }
    }
}

/// How far the set-up of a confidential cluster has come.
#[derive(Debug, Clone, Copy, PartialEq, Eq, Structural)]
pub enum ConfidentialClusterPhase {
    Invalid,
    Deploying,
    Installed,
    Uninstalling,
}

/// One aspect of the state of a resource.
#[derive(Debug, Clone)]
pub struct Condition {
    pub last_transition_time: Timestamp,
    pub message: String,
    pub observed_generation: Option<i64>,
    pub reason: String,
    pub status: String,
    pub type_: String,
}

/// The state of a confidential cluster.
#[derive(Debug, Clone)]
pub struct ConfidentialClusterStatus {
    pub phase: ConfidentialClusterPhase,
    pub conditions: Vec<Condition>,
    pub generation: Option<i64>,
}

/// A machine of the cluster.
#[derive(Debug, Clone)]
pub struct MachineSpec {
    pub id: String,
    pub address: String,
}

/// A boot image that the cluster may run.
pub struct ApprovedImageSpec {
    pub reference: String,
}

/// A boot image that the cluster may run, as a resource.
pub struct ApprovedImage {
    pub metadata: ObjectMeta,
    pub spec: ApprovedImageSpec,
}

/// The contents of an `ApprovedImage`.
#[verifier::ext_equal]
pub struct ApprovedImageView {
    pub metadata: ObjectMetaView,
    pub reference: Seq<char>,
}

impl DeepView for ApprovedImage {
    type V = ApprovedImageView;

    open spec fn deep_view(&self) -> ApprovedImageView {
        ApprovedImageView {
            metadata: self.metadata.deep_view(),
            reference: self.spec.reference@,
        }
    }
}

/// The rendered configuration of a machine config pool.
pub struct MachineConfigPoolConfiguration {
    pub name: Option<String>,
}

/// What a machine config pool asks for.
pub struct MachineConfigPoolSpec {
    pub configuration: Option<MachineConfigPoolConfiguration>,
}

/// A machine config pool.
pub struct MachineConfigPool {
    pub metadata: ObjectMeta,
    pub spec: MachineConfigPoolSpec,
}

/// What a machine config asks for.
pub struct MachineConfigSpec {
    pub os_image_url: Option<String>,
}

/// A machine config.
pub struct MachineConfig {
    pub spec: MachineConfigSpec,
}

} // verus!
