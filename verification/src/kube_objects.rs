//! The Kubernetes objects that the operator makes, as far as it sets their fields.
use crate::ordered::TextMap;
use vstd::prelude::*;

verus! {

/// The object on whose behalf another object exists.
pub struct OwnerReference {
    pub api_version: String,
    pub kind: String,
    pub name: String,
    pub uid: String,
    pub controller: Option<bool>,
    pub block_owner_deletion: Option<bool>,
}

/// The contents of an `OwnerReference`.
#[verifier::ext_equal]
pub struct OwnerReferenceView {
    pub api_version: Seq<char>,
    pub kind: Seq<char>,
    pub name: Seq<char>,
    pub uid: Seq<char>,
    pub controller: Option<bool>,
    pub block_owner_deletion: Option<bool>,
}

impl DeepView for OwnerReference {
    type V = OwnerReferenceView;

    open spec fn deep_view(&self) -> OwnerReferenceView {
        OwnerReferenceView {
            api_version: self.api_version@,
            kind: self.kind@,
            name: self.name@,
            uid: self.uid@,
            controller: self.controller,
            block_owner_deletion: self.block_owner_deletion,
        }
    }
}

impl OwnerReference {
    /// The same reference again.
    pub fn copy(&self) -> (owner: OwnerReference)
        ensures
            owner.deep_view() == self.deep_view(),
    {
        OwnerReference {
            api_version: self.api_version.clone(),
            kind: self.kind.clone(),
            name: self.name.clone(),
            uid: self.uid.clone(),
            controller: self.controller,
            block_owner_deletion: self.block_owner_deletion,
        }
    }
}

/// Name, labels and owners of an object.
pub struct ObjectMeta {
    pub name: Option<String>,
    pub labels: Option<TextMap<String>>,
    pub owner_references: Option<Vec<OwnerReference>>,
}

/// The contents of an `ObjectMeta`.
#[verifier::ext_equal]
pub struct ObjectMetaView {
    pub name: Option<Seq<char>>,
    pub labels: Option<Map<Seq<char>, Seq<char>>>,
    pub owner_references: Option<Seq<OwnerReferenceView>>,
}

impl DeepView for ObjectMeta {
    type V = ObjectMetaView;

    open spec fn deep_view(&self) -> ObjectMetaView {
        ObjectMetaView {
            name: self.name.deep_view(),
            labels: self.labels.deep_view(),
            owner_references: self.owner_references.deep_view(),
        }
    }
}

/// The metadata of an object with a name and nothing else.
pub open spec fn named(name: Seq<char>) -> ObjectMetaView {
    ObjectMetaView { name: Some(name), labels: None, owner_references: None }
}

/// The metadata of an object with a name and one owner.
pub open spec fn owned(name: Seq<char>, owner: OwnerReferenceView) -> ObjectMetaView {
    ObjectMetaView { name: Some(name), labels: None, owner_references: Some(seq![owner]) }
}

impl ObjectMeta {
    /// The metadata of an object with a name and nothing else.
    pub fn named(name: &str) -> (meta: ObjectMeta)
        ensures
            meta.deep_view() == named(name@),
    {
        ObjectMeta { name: Some(name.to_owned()), labels: None, owner_references: None }
    }

    /// The metadata of an object with a name and one owner.
    pub fn owned(name: &str, owner: OwnerReference) -> (meta: ObjectMeta)
        ensures
            meta.deep_view() == owned(name@, owner.deep_view()),
    {
        let mut owners: Vec<OwnerReference> = Vec::new();
        owners.push(owner);
        assert(owners.deep_view() =~= seq![owner.deep_view()]);
        ObjectMeta { name: Some(name.to_owned()), labels: None, owner_references: Some(owners) }
    }
}

/// A map of one entry.
pub fn one_entry(key: &str, value: &str) -> (map: TextMap<String>)
    ensures
        map@ == map![key@ => value@],
{
    let none: TextMap<String> = TextMap::new();
    none.insert(key.to_owned(), value.to_owned())
}

/// A config map.
pub struct ConfigMap {
    pub metadata: ObjectMeta,
    pub data: Option<TextMap<String>>,
}

/// The contents of a `ConfigMap`.
#[verifier::ext_equal]
pub struct ConfigMapView {
    pub metadata: ObjectMetaView,
    pub data: Option<Map<Seq<char>, Seq<char>>>,
}

impl DeepView for ConfigMap {
    type V = ConfigMapView;

    open spec fn deep_view(&self) -> ConfigMapView {
        ConfigMapView { metadata: self.metadata.deep_view(), data: self.data.deep_view() }
    }
}

/// A secret.
pub struct Secret {
    pub metadata: ObjectMeta,
    pub data: TextMap<Vec<u8>>,
}

/// The contents of a `Secret`.
#[verifier::ext_equal]
pub struct SecretView {
    pub metadata: ObjectMetaView,
    pub data: Map<Seq<char>, Seq<u8>>,
}

impl DeepView for Secret {
    type V = SecretView;

    open spec fn deep_view(&self) -> SecretView {
        SecretView { metadata: self.metadata.deep_view(), data: self.data@ }
    }
}

/// A port of a service and the port of the pods behind it.
pub struct ServicePort {
    pub name: String,
    pub port: i32,
    pub target_port: i32,
}

/// The contents of a `ServicePort`.
#[verifier::ext_equal]
pub struct ServicePortView {
    pub name: Seq<char>,
    pub port: i32,
    pub target_port: i32,
}

impl DeepView for ServicePort {
    type V = ServicePortView;

    open spec fn deep_view(&self) -> ServicePortView {
        ServicePortView { name: self.name@, port: self.port, target_port: self.target_port }
    }
}

/// A service.
pub struct Service {
    pub metadata: ObjectMeta,
    pub selector: TextMap<String>,
    pub ports: Vec<ServicePort>,
}

/// The contents of a `Service`.
#[verifier::ext_equal]
pub struct ServiceView {
    pub metadata: ObjectMetaView,
    pub selector: Map<Seq<char>, Seq<char>>,
    pub ports: Seq<ServicePortView>,
}

impl DeepView for Service {
    type V = ServiceView;

    open spec fn deep_view(&self) -> ServiceView {
        ServiceView {
            metadata: self.metadata.deep_view(),
            selector: self.selector@,
            ports: self.ports.deep_view(),
        }
    }
}

/// What a volume holds.
pub enum VolumeSource {
    /// The files of a config map. If items are given, only these keys, each at its path.
    ConfigMap { name: String, items: Option<Vec<(String, String)>> },
    /// The files of a secret.
    Secret { secret_name: String },
    /// An empty directory on a medium.
    EmptyDir { medium: String },
    /// The files of a container image.
    Image { reference: String },
}

/// The contents of a `VolumeSource`.
#[verifier::ext_equal]
pub enum VolumeSourceView {
    ConfigMap { name: Seq<char>, items: Option<Seq<(Seq<char>, Seq<char>)>> },
    Secret { secret_name: Seq<char> },
    EmptyDir { medium: Seq<char> },
    Image { reference: Seq<char> },
}

impl DeepView for VolumeSource {
    type V = VolumeSourceView;

    open spec fn deep_view(&self) -> VolumeSourceView {
        match self {
            VolumeSource::ConfigMap { name, items } => VolumeSourceView::ConfigMap {
                name: name@,
                items: items.deep_view(),
            },
            VolumeSource::Secret { secret_name } => VolumeSourceView::Secret {
                secret_name: secret_name@,
            },
            VolumeSource::EmptyDir { medium } => VolumeSourceView::EmptyDir { medium: medium@ },
            VolumeSource::Image { reference } => VolumeSourceView::Image { reference: reference@ },
        }
    }
}

/// A volume of a pod.
pub struct Volume {
    pub name: String,
    pub source: VolumeSource,
}

/// The contents of a `Volume`.
#[verifier::ext_equal]
pub struct VolumeView {
    pub name: Seq<char>,
    pub source: VolumeSourceView,
}

impl DeepView for Volume {
    type V = VolumeView;

    open spec fn deep_view(&self) -> VolumeView {
        VolumeView { name: self.name@, source: self.source.deep_view() }
    }
}

/// Where a container sees a volume.
pub struct VolumeMount {
    pub name: String,
    pub mount_path: String,
}

/// The contents of a `VolumeMount`.
#[verifier::ext_equal]
pub struct VolumeMountView {
    pub name: Seq<char>,
    pub mount_path: Seq<char>,
}

impl DeepView for VolumeMount {
    type V = VolumeMountView;

    open spec fn deep_view(&self) -> VolumeMountView {
        VolumeMountView { name: self.name@, mount_path: self.mount_path@ }
    }
}

/// A container of a pod.
pub struct Container {
    pub name: String,
    pub image: String,
    pub command: Vec<String>,
    pub ports: Option<Vec<i32>>,
    pub volume_mounts: Vec<VolumeMount>,
}

/// The contents of a `Container`.
#[verifier::ext_equal]
pub struct ContainerView {
    pub name: Seq<char>,
    pub image: Seq<char>,
    pub command: Seq<Seq<char>>,
    pub ports: Option<Seq<i32>>,
    pub volume_mounts: Seq<VolumeMountView>,
}

impl DeepView for Container {
    type V = ContainerView;

    open spec fn deep_view(&self) -> ContainerView {
        ContainerView {
            name: self.name@,
            image: self.image@,
            command: self.command.deep_view(),
            ports: self.ports.deep_view(),
            volume_mounts: self.volume_mounts.deep_view(),
        }
    }
}

/// What runs in a pod.
pub struct PodSpec {
    pub service_account_name: Option<String>,
    pub containers: Vec<Container>,
    pub volumes: Vec<Volume>,
    pub restart_policy: Option<String>,
}

/// The contents of a `PodSpec`.
#[verifier::ext_equal]
pub struct PodSpecView {
    pub service_account_name: Option<Seq<char>>,
    pub containers: Seq<ContainerView>,
    pub volumes: Seq<VolumeView>,
    pub restart_policy: Option<Seq<char>>,
}

impl DeepView for PodSpec {
    type V = PodSpecView;

    open spec fn deep_view(&self) -> PodSpecView {
        PodSpecView {
            service_account_name: self.service_account_name.deep_view(),
            containers: self.containers.deep_view(),
            volumes: self.volumes.deep_view(),
            restart_policy: self.restart_policy.deep_view(),
        }
    }
}

/// The pod has a volume of this name.
pub open spec fn has_volume(pod: PodSpecView, name: Seq<char>) -> bool {
    exists|v: int| 0 <= v < pod.volumes.len() && (#[trigger] pod.volumes[v]).name == name
}

/// Volumes have different names, and whatever a container mounts is a volume of the pod.
pub open spec fn mounts_are_backed(pod: PodSpecView) -> bool {
    &&& forall|u: int, v: int|
        0 <= u < v < pod.volumes.len() ==> (#[trigger] pod.volumes[u]).name != (
        #[trigger] pod.volumes[v]).name
    &&& forall|c: int, m: int|
        0 <= c < pod.containers.len() && 0 <= m < pod.containers[c].volume_mounts.len()
            ==> has_volume(pod, (#[trigger] pod.containers[c].volume_mounts[m]).name)
}

/// A deployment of pods with certain labels.
pub struct Deployment {
    pub metadata: ObjectMeta,
    pub match_labels: TextMap<String>,
    pub pod_labels: TextMap<String>,
    pub pod_spec: PodSpec,
}

/// The contents of a `Deployment`.
#[verifier::ext_equal]
pub struct DeploymentView {
    pub metadata: ObjectMetaView,
    pub match_labels: Map<Seq<char>, Seq<char>>,
    pub pod_labels: Map<Seq<char>, Seq<char>>,
    pub pod_spec: PodSpecView,
}

impl DeepView for Deployment {
    type V = DeploymentView;

    open spec fn deep_view(&self) -> DeploymentView {
        DeploymentView {
            metadata: self.metadata.deep_view(),
            match_labels: self.match_labels@,
            pod_labels: self.pod_labels@,
            pod_spec: self.pod_spec.deep_view(),
        }
    }
}

/// A job that runs one pod to completion.
pub struct Job {
    pub metadata: ObjectMeta,
    pub pod_spec: PodSpec,
}

/// The contents of a `Job`.
#[verifier::ext_equal]
pub struct JobView {
    pub metadata: ObjectMetaView,
    pub pod_spec: PodSpecView,
}

impl DeepView for Job {
    type V = JobView;

    open spec fn deep_view(&self) -> JobView {
        JobView { metadata: self.metadata.deep_view(), pod_spec: self.pod_spec.deep_view() }
    }
}

} // verus!
