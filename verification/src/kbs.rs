//! The key broker service: the secrets that it hands out and the objects that it runs from.
use crate::error::OperatorError;
use crate::kube_objects::{
    has_volume, mounts_are_backed, named, one_entry, owned, ConfigMap, ConfigMapView, Container,
    ContainerView, Deployment, DeploymentView, ObjectMeta, OwnerReference, OwnerReferenceView,
    PodSpec, PodSpecView, Secret, SecretView, Service, ServicePort, ServicePortView, ServiceView,
    Volume, VolumeMount, VolumeMountView, VolumeSource, VolumeSourceView, VolumeView,
};
use crate::ordered::TextMap;
use crate::outside::{
    base64_char, base64_digit, base64_of, base64_text, byte_or_zero, random_bytes,
};
use crate::text::around;
use vstd::prelude::*;
use vstd::utf8::*;

verus! {

/// The directory in which the service finds its files.
pub const TRUSTEE_DATA_DIR: &'static str = "/opt/trustee";

/// The directory in which the service finds its secrets.
pub const TRUSTEE_SECRETS_PATH: &'static str = "/opt/trustee/kbs-repository/default";

/// The configuration file of the service.
pub const KBS_CONFIG_FILE: &'static str = "kbs-config.toml";

/// The file of reference values.
pub const REFERENCE_VALUES_FILE: &'static str = "reference-values.json";

/// The config map with the files of the service.
pub const TRUSTEE_DATA_MAP: &'static str = "trustee-data";

/// The config map with the attestation policies.
pub const ATT_POLICY_MAP: &'static str = "attestation-policy";

/// The deployment of the service.
pub const DEPLOYMENT_NAME: &'static str = "trustee-deployment";

/// The port on which the service listens.
pub const INTERNAL_KBS_PORT: i32 = 8080;

/// A key in the notation of JSON Web Keys.
pub struct Jwk {
    pub key_type: String,
    pub key: String,
}

/// The key made of some bytes: a sequence of octets in Base64 notation.
pub fn luks_jwk(pass: &[u8]) -> (jwk: Jwk)
    requires
        pass@.len() <= 0x3fff_ffff,
    ensures
        jwk.key_type@ == "oct"@,
        jwk.key@ == base64_of(pass@),
        encode_utf8(jwk.key@).len() == (pass@.len() + 2) / 3 * 4,
{
    let key = base64_text(pass);
    proof {
        base64_is_ascii(pass@);
        is_ascii_chars_encode_utf8(key@);
    }
    Jwk { key_type: "oct".to_owned(), key }
}

/// A fresh random key to encrypt a disk with. Its notation takes 32 bytes.
pub fn generate_luks_key() -> (jwk: Result<Jwk, OperatorError>)
    ensures
        jwk matches Ok(j) ==> {
            &&& j.key_type@ == "oct"@
            &&& exists|pass: Seq<u8>| pass.len() == 24 && j.key@ == #[trigger] base64_of(pass)
            &&& encode_utf8(j.key@).len() == 32
            &&& !j.key@.contains('=')
        },
        jwk matches Err(e) ==> e is Openssl,
{
    match random_bytes(24) {
        Ok(pass) => {
            proof {
                whole_groups_need_no_padding(pass@);
            }
            Ok(luks_jwk(pass.as_slice()))
        },
        Err(e) => Err(OperatorError::Openssl(e)),
    }
}

/// The characters of Base64 notation are ASCII.
proof fn base64_is_ascii(bytes: Seq<u8>)
    ensures
        is_ascii_chars(base64_of(bytes)),
{
    let text = base64_of(bytes);
    assert forall|i: int| 0 <= i < text.len() implies '\0' <= #[trigger] text[i] <= '\u{7f}' by {
        sextets_are_small(bytes, i);
    }
}

/// The numbers that a group of three bytes is split into have six bits.
proof fn sextets_are_small(bytes: Seq<u8>, i: int)
    ensures
        ({
            let b0 = byte_or_zero(bytes, i / 4 * 3);
            let b1 = byte_or_zero(bytes, i / 4 * 3 + 1);
            let b2 = byte_or_zero(bytes, i / 4 * 3 + 2);
            &&& 0 <= b0 <= 255 && 0 <= b1 <= 255 && 0 <= b2 <= 255
            &&& 0 <= b0 / 4 < 64
            &&& 0 <= b0 % 4 * 16 + b1 / 16 < 64
            &&& 0 <= b1 % 16 * 4 + b2 / 64 < 64
            &&& 0 <= b2 % 64 < 64
        }),
{
}

/// The code point of a Base64 digit.
spec fn base64_code(n: int) -> int {
    if n < 26 {
        65 + n
    } else if n < 52 {
        71 + n
    } else if n < 62 {
        n - 4
    } else if n == 62 {
        43
    } else {
        47
    }
}

/// Different numbers have different Base64 digits, and none is the padding.
proof fn base64_digit_injective(m: int, n: int)
    requires
        0 <= m < 64,
        0 <= n < 64,
    ensures
        base64_digit(m) == base64_digit(n) ==> m == n,
        base64_digit(m) != '=',
{
    assert(base64_digit(m) as int == base64_code(m));
    assert(base64_digit(n) as int == base64_code(n));
}

/// A number of bytes that three divides needs no padding.
pub proof fn whole_groups_need_no_padding(bytes: Seq<u8>)
    requires
        bytes.len() % 3 == 0,
    ensures
        !base64_of(bytes).contains('='),
{
    let text = base64_of(bytes);
    assert forall|i: int| 0 <= i < text.len() implies #[trigger] text[i] != '=' by {
        sextets_are_small(bytes, i);
        let b0 = byte_or_zero(bytes, i / 4 * 3);
        let b1 = byte_or_zero(bytes, i / 4 * 3 + 1);
        let b2 = byte_or_zero(bytes, i / 4 * 3 + 2);
        base64_digit_injective(b0 / 4, 0);
        base64_digit_injective(b0 % 4 * 16 + b1 / 16, 0);
        base64_digit_injective(b1 % 16 * 4 + b2 / 64, 0);
        base64_digit_injective(b2 % 64, 0);
    }
}

/// Base64 notation can be read back: no other bytes have the same notation.
pub proof fn base64_tells_bytes(a: Seq<u8>, b: Seq<u8>)
    requires
        base64_of(a) == base64_of(b),
    ensures
        a == b,
{
    let x = base64_of(a);
    let y = base64_of(b);
    assert(x.len() == (a.len() + 2) / 3 * 4 && y.len() == (b.len() + 2) / 3 * 4);
    if a.len() > 0 {
        base64_tells_length(a, b);
        base64_tells_length(b, a);
    } else {
        assert((b.len() + 2) / 3 == 0);
    }
    assert(a.len() == b.len());
    assert forall|k: int| 0 <= k < a.len() implies a[k] == b[k] by {
        base64_tells_group(a, b, k / 3);
    }
    assert(a =~= b);
}

/// Bytes with the same notation are not fewer.
proof fn base64_tells_length(a: Seq<u8>, b: Seq<u8>)
    requires
        base64_of(a) == base64_of(b),
        a.len() > 0,
    ensures
        a.len() <= b.len(),
{
    let x = base64_of(a);
    let y = base64_of(b);
    assert(x.len() == (a.len() + 2) / 3 * 4 && y.len() == (b.len() + 2) / 3 * 4);
    assert((a.len() + 2) / 3 == (b.len() + 2) / 3);
    let g = (a.len() as int + 2) / 3 - 1;
    assert(g == (b.len() as int + 2) / 3 - 1);
    let i = 4 * g;
    assert(x[i + 2] == base64_char(a, i + 2) && y[i + 2] == base64_char(b, i + 2));
    assert(x[i + 3] == base64_char(a, i + 3) && y[i + 3] == base64_char(b, i + 3));
    assert((i + 2) / 4 == g && (i + 2) % 4 == 2 && (i + 3) / 4 == g && (i + 3) % 4 == 3);
    sextets_are_small(a, i + 2);
    sextets_are_small(a, i + 3);
    let a1 = byte_or_zero(a, g * 3 + 1);
    let a2 = byte_or_zero(a, g * 3 + 2);
    base64_digit_injective(a1 % 16 * 4 + a2 / 64, 0);
    base64_digit_injective(a2 % 64, 0);
}

/// Each group of three bytes can be told from its four characters.
proof fn base64_tells_group(a: Seq<u8>, b: Seq<u8>, g: int)
    requires
        base64_of(a) == base64_of(b),
        a.len() == b.len(),
        0 <= g,
        3 * g < a.len(),
    ensures
        forall|k: int| 3 * g <= k < 3 * g + 3 && k < a.len() ==> #[trigger] a[k] == b[k],
{
    let x = base64_of(a);
    let y = base64_of(b);
    let i = 4 * g;
    assert(i + 3 < x.len());
    assert(x[i] == base64_char(a, i) && y[i] == base64_char(b, i));
    assert(x[i + 1] == base64_char(a, i + 1) && y[i + 1] == base64_char(b, i + 1));
    assert(x[i + 2] == base64_char(a, i + 2) && y[i + 2] == base64_char(b, i + 2));
    assert(x[i + 3] == base64_char(a, i + 3) && y[i + 3] == base64_char(b, i + 3));
    assert(i / 4 == g && (i + 1) / 4 == g && (i + 2) / 4 == g && (i + 3) / 4 == g);
    sextets_are_small(a, i);
    sextets_are_small(b, i);
    let (a0, b0) = (byte_or_zero(a, g * 3), byte_or_zero(b, g * 3));
    let (a1, b1) = (byte_or_zero(a, g * 3 + 1), byte_or_zero(b, g * 3 + 1));
    let (a2, b2) = (byte_or_zero(a, g * 3 + 2), byte_or_zero(b, g * 3 + 2));
    base64_digit_injective(a0 / 4, b0 / 4);
    base64_digit_injective(a0 % 4 * 16 + a1 / 16, b0 % 4 * 16 + b1 / 16);
    base64_digit_injective(a1 % 16 * 4 + a2 / 64, b1 % 16 * 4 + b2 / 64);
    base64_digit_injective(a2 % 64, b2 % 64);
    assert(a0 == b0);
    if 3 * g + 1 < a.len() {
        assert(a1 == b1);
    }
    if 3 * g + 2 < a.len() {
        assert(a2 == b2);
    }
}

/// The volume of a secret.
pub open spec fn secret_volume(id: Seq<char>) -> VolumeView {
    VolumeView { name: id, source: VolumeSourceView::Secret { secret_name: id } }
}

/// Where a secret is mounted: below the directory of secrets, under its own name.
pub open spec fn secret_mount(id: Seq<char>) -> VolumeMountView {
    VolumeMountView { name: id, mount_path: TRUSTEE_SECRETS_PATH@ + "/"@ + id }
}

/// The volume of a secret and where it is mounted.
pub fn generate_secret_volume(id: &str) -> (r: (Volume, VolumeMount))
    ensures
        r.0.deep_view() == secret_volume(id@),
        r.1.deep_view() == secret_mount(id@),
{
    (
        Volume {
            name: id.to_owned(),
            source: VolumeSource::Secret { secret_name: id.to_owned() },
        },
        VolumeMount {
            name: id.to_owned(),
            mount_path: around(TRUSTEE_SECRETS_PATH, "/", id),
        },
    )
}

/// Part of an object of the cluster: as it was fetched, with all that the cluster knows of it, or
/// made by the operator.
pub enum Held<T, O> {
    Fetched(O),
    Made(T),
}

/// The contents of a `Held`.
#[verifier::ext_equal]
pub enum HeldView<T, O> {
    Fetched(O),
    Made(T),
}

impl<T: DeepView, O> DeepView for Held<T, O> {
    type V = HeldView<T::V, O>;

    open spec fn deep_view(&self) -> HeldView<T::V, O> {
        match self {
            Held::Fetched(part) => HeldView::Fetched(*part),
            Held::Made(part) => HeldView::Made(part.deep_view()),
        }
    }
}

/// The volumes of a pod, and for each of its containers the mounts.
pub struct PodMounts<V, M> {
    pub volumes: Option<Vec<Held<Volume, V>>>,
    pub mounts: Vec<Option<Vec<Held<VolumeMount, M>>>>,
}

/// The contents of a `PodMounts`.
#[verifier::ext_equal]
pub struct PodMountsView<V, M> {
    pub volumes: Option<Seq<HeldView<VolumeView, V>>>,
    pub mounts: Seq<Option<Seq<HeldView<VolumeMountView, M>>>>,
}

impl<V, M> DeepView for PodMounts<V, M> {
    type V = PodMountsView<V, M>;

    open spec fn deep_view(&self) -> PodMountsView<V, M> {
        PodMountsView { volumes: self.volumes.deep_view(), mounts: self.mounts.deep_view() }
    }
}

/// A list with one more item at its end. No list counts as an empty one.
pub open spec fn with_one_more<T>(list: Option<Seq<T>>, item: T) -> Seq<T> {
    match list {
        Some(items) => items.push(item),
        None => seq![item],
    }
}

/// The pod with the volume of a secret, which its first container mounts.
pub open spec fn secret_mounted<V, M>(pod: PodMountsView<V, M>, id: Seq<char>) -> PodMountsView<
    V,
    M,
> {
    PodMountsView {
        volumes: Some(with_one_more(pod.volumes, HeldView::Made(secret_volume(id)))),
        mounts: pod.mounts.update(
            0,
            Some(with_one_more(pod.mounts[0], HeldView::Made(secret_mount(id)))),
        ),
    }
}

/// Adds an item at the end of a list.
fn add_one_more<T: DeepView>(list: Option<Vec<T>>, item: T) -> (longer: Vec<T>)
    ensures
        longer.deep_view() == with_one_more(list.deep_view(), item.deep_view()),
{
    match list {
        Some(items) => {
            let ghost before = items.deep_view();
            let mut longer = items;
            longer.push(item);
            assert(longer.deep_view() =~= before.push(item.deep_view()));
            longer
        },
        None => {
            let mut longer: Vec<T> = Vec::new();
            longer.push(item);
            assert(longer.deep_view() =~= seq![item.deep_view()]);
            longer
        },
    }
}

/// Mounts a secret in the deployment of the service. `deployment` is the spec of the fetched
/// deployment, and inside it the pod spec, as far as there are any.
pub fn mount_secret<V, M>(deployment: Option<Option<PodMounts<V, M>>>, id: &str) -> (pod: Result<
    PodMounts<V, M>,
    OperatorError,
>)
    ensures
        deployment is None <==> pod matches Err(OperatorError::NoDeploymentSpec),
        deployment matches Some(None) <==> pod matches Err(OperatorError::NoPodSpec),
        (deployment matches Some(Some(old)) && old.mounts@.len() == 0) <==> pod matches Err(
            OperatorError::NoContainers,
        ),
        pod is Ok <==> (deployment matches Some(Some(old)) && old.mounts@.len() > 0),
        pod matches Ok(new) ==> new.deep_view() == secret_mounted(
            deployment->0->0.deep_view(),
            id@,
        ),
{
    let pod = match deployment {
        None => {
            return Err(OperatorError::NoDeploymentSpec);
        },
        Some(None) => {
            return Err(OperatorError::NoPodSpec);
        },
        Some(Some(pod)) => pod,
    };
    let ghost before = pod.deep_view();
    let (volume, volume_mount) = generate_secret_volume(id);
    let volumes = add_one_more(pod.volumes, Held::Made(volume));
    let mut mounts = pod.mounts;
    if mounts.len() == 0 {
        return Err(OperatorError::NoContainers);
    }
    let first = mounts.remove(0);
    let first = add_one_more(first, Held::Made(volume_mount));
    mounts.insert(0, Some(first));
    let new = PodMounts { volumes: Some(volumes), mounts };
    assert(new.mounts.deep_view() =~= secret_mounted(before, id@).mounts);
    Ok(new)
}

/// The secret of an id: its root key.
pub open spec fn secret_of(id: Seq<char>, key: Seq<u8>) -> SecretView {
    SecretView { metadata: named(id), data: map!["root"@ => key] }
}

/// Makes the secret of an id from the bytes of its key.
pub fn generate_secret(id: &str, key: Vec<u8>) -> (secret: Secret)
    ensures
        secret.deep_view() == secret_of(id@, key@),
{
    let none: TextMap<Vec<u8>> = TextMap::new();
    assert(key.deep_view() =~= key@);
    Secret { metadata: ObjectMeta::named(id), data: none.insert("root".to_owned(), key) }
}

/// The config map of the attestation policies. There is a policy for graphics processors too,
/// though it is empty: the service would write one if there were none, and cannot.
pub open spec fn attestation_policy(
    owner: OwnerReferenceView,
    policy_rego: Seq<char>,
) -> ConfigMapView {
    ConfigMapView {
        metadata: owned(ATT_POLICY_MAP@, owner),
        data: Some(
            map!["default_cpu.rego"@ => policy_rego, "default_gpu.rego"@ => Seq::<char>::empty()],
        ),
    }
}

/// Makes the config map of the attestation policies.
pub fn generate_attestation_policy(owner_reference: OwnerReference, policy_rego: &str) -> (map:
    ConfigMap)
    ensures
        map.deep_view() == attestation_policy(owner_reference.deep_view(), policy_rego@),
{
    let data: TextMap<String> = TextMap::new();
    let data = data.insert("default_cpu.rego".to_owned(), policy_rego.to_owned());
    let data = data.insert("default_gpu.rego".to_owned(), String::new());
    ConfigMap { metadata: ObjectMeta::owned(ATT_POLICY_MAP, owner_reference), data: Some(data) }
}

/// The config map with the files of the service. At first there are no reference values.
pub open spec fn trustee_data(
    owner: OwnerReferenceView,
    kbs_config: Seq<char>,
    policy_rego: Seq<char>,
) -> ConfigMapView {
    ConfigMapView {
        metadata: owned(TRUSTEE_DATA_MAP@, owner),
        data: Some(
            map![
                KBS_CONFIG_FILE@ => kbs_config,
                "policy.rego"@ => policy_rego,
                REFERENCE_VALUES_FILE@ => "{}"@,
            ],
        ),
    }
}

/// Makes the config map with the files of the service.
pub fn generate_trustee_data(
    owner_reference: OwnerReference,
    kbs_config: &str,
    policy_rego: &str,
) -> (map: ConfigMap)
    ensures
        map.deep_view() == trustee_data(owner_reference.deep_view(), kbs_config@, policy_rego@),
{
    let data: TextMap<String> = TextMap::new();
    let data = data.insert(KBS_CONFIG_FILE.to_owned(), kbs_config.to_owned());
    let data = data.insert("policy.rego".to_owned(), policy_rego.to_owned());
    let data = data.insert(REFERENCE_VALUES_FILE.to_owned(), "{}".to_owned());
    ConfigMap { metadata: ObjectMeta::owned(TRUSTEE_DATA_MAP, owner_reference), data: Some(data) }
}

/// The label of the pods of the service.
pub open spec fn kbs_labels() -> Map<Seq<char>, Seq<char>> {
    map!["app"@ => "kbs"@]
}

/// The service in front of the pods.
pub open spec fn kbs_service(owner: OwnerReferenceView, kbs_port: i32) -> ServiceView {
    ServiceView {
        metadata: owned("kbs-service"@, owner),
        selector: kbs_labels(),
        ports: seq![
            ServicePortView {
                name: "kbs-port"@,
                port: kbs_port,
                target_port: INTERNAL_KBS_PORT,
            },
        ],
    }
}

/// Makes the service in front of the pods.
pub fn generate_kbs_service(owner_reference: OwnerReference, kbs_port: i32) -> (service: Service)
    ensures
        service.deep_view() == kbs_service(owner_reference.deep_view(), kbs_port),
{
    let mut ports: Vec<ServicePort> = Vec::new();
    ports.push(
        ServicePort {
            name: "kbs-port".to_owned(),
            port: kbs_port,
            target_port: INTERNAL_KBS_PORT,
        },
    );
    let ghost wanted = kbs_service(owner_reference.deep_view(), kbs_port);
    assert(ports.deep_view() =~= wanted.ports);
    Service {
        metadata: ObjectMeta::owned("kbs-service", owner_reference),
        selector: one_entry("app", "kbs"),
        ports,
    }
}

/// Name, mount path and contents of each volume of the service.
pub open spec fn kbs_volume_templates() -> Seq<(Seq<char>, Seq<char>, VolumeSourceView)> {
    seq![
        (
            ATT_POLICY_MAP@,
            "/opt/trustee/policies/opa"@,
            VolumeSourceView::ConfigMap { name: ATT_POLICY_MAP@, items: None },
        ),
        (
            TRUSTEE_DATA_MAP@,
            TRUSTEE_DATA_DIR@,
            VolumeSourceView::ConfigMap { name: TRUSTEE_DATA_MAP@, items: None },
        ),
        (
            "resource-dir"@,
            TRUSTEE_SECRETS_PATH@,
            VolumeSourceView::EmptyDir { medium: "Memory"@ },
        ),
    ]
}

/// Gives name, mount path and contents of each volume of the service.
pub fn generate_kbs_volume_templates() -> (templates: Vec<(String, String, VolumeSource)>)
    ensures
        templates.deep_view() == kbs_volume_templates(),
{
    let mut templates: Vec<(String, String, VolumeSource)> = Vec::new();
    templates.push(
        (
            ATT_POLICY_MAP.to_owned(),
            "/opt/trustee/policies/opa".to_owned(),
            VolumeSource::ConfigMap { name: ATT_POLICY_MAP.to_owned(), items: None },
        ),
    );
    templates.push(
        (
            TRUSTEE_DATA_MAP.to_owned(),
            TRUSTEE_DATA_DIR.to_owned(),
            VolumeSource::ConfigMap { name: TRUSTEE_DATA_MAP.to_owned(), items: None },
        ),
    );
    templates.push(
        (
            "resource-dir".to_owned(),
            TRUSTEE_SECRETS_PATH.to_owned(),
            VolumeSource::EmptyDir { medium: "Memory".to_owned() },
        ),
    );
    assert(templates.deep_view() =~= kbs_volume_templates());
    templates
}

/// The mounts of some volumes.
pub open spec fn mounts_of(
    templates: Seq<(Seq<char>, Seq<char>, VolumeSourceView)>,
) -> Seq<VolumeMountView> {
    Seq::new(
        templates.len(),
        |i: int| VolumeMountView { name: templates[i].0, mount_path: templates[i].1 },
    )
}

/// The volumes themselves.
pub open spec fn volumes_of(
    templates: Seq<(Seq<char>, Seq<char>, VolumeSourceView)>,
) -> Seq<VolumeView> {
    Seq::new(
        templates.len(),
        |i: int| VolumeView { name: templates[i].0, source: templates[i].2 },
    )
}

/// The pod of the service. It is told where its configuration file is.
pub open spec fn kbs_pod_spec(image: Seq<char>) -> PodSpecView {
    PodSpecView {
        service_account_name: None,
        containers: seq![
            ContainerView {
                name: "kbs"@,
                image,
                command: seq![
                    "/usr/local/bin/kbs"@,
                    "--config-file"@,
                    TRUSTEE_DATA_DIR@ + "/"@ + KBS_CONFIG_FILE@,
                ],
                ports: Some(seq![INTERNAL_KBS_PORT]),
                volume_mounts: mounts_of(kbs_volume_templates()),
            },
        ],
        volumes: volumes_of(kbs_volume_templates()),
        restart_policy: None,
    }
}

/// Makes the pod of the service.
pub fn generate_kbs_pod_spec(image: &str) -> (pod: PodSpec)
    ensures
        pod.deep_view() == kbs_pod_spec(image@),
{
    let ghost wanted = kbs_pod_spec(image@);
    let ghost all = kbs_volume_templates();
    let mut templates = generate_kbs_volume_templates();
    let mut volume_mounts: Vec<VolumeMount> = Vec::new();
    let mut volumes: Vec<Volume> = Vec::new();
    let ghost mut done: int = 0;
    while templates.len() > 0
        invariant
            0 <= done <= all.len(),
            all == kbs_volume_templates(),
            templates.deep_view() =~= all.skip(done),
            volume_mounts.deep_view() =~= mounts_of(all).take(done),
            volumes.deep_view() =~= volumes_of(all).take(done),
        decreases templates@.len(),
    {
        let ghost rest = templates.deep_view();
        let ghost mounts_before = volume_mounts.deep_view();
        let ghost volumes_before = volumes.deep_view();
        let (name, mount_path, source) = templates.remove(0);
        assert(templates.deep_view() =~= rest.skip(1));
        assert(rest[0] == all[done]);
        let mount = VolumeMount { name: name.clone(), mount_path };
        volume_mounts.push(mount);
        assert(volume_mounts.deep_view() =~= mounts_before.push(mount.deep_view()));
        let volume = Volume { name, source };
        volumes.push(volume);
        assert(volumes.deep_view() =~= volumes_before.push(volume.deep_view()));
        proof {
            done = done + 1;
        }
    }
    let mut command: Vec<String> = Vec::new();
    command.push("/usr/local/bin/kbs".to_owned());
    command.push("--config-file".to_owned());
    command.push(around(TRUSTEE_DATA_DIR, "/", KBS_CONFIG_FILE));
    assert(command.deep_view() =~= wanted.containers[0].command);
    let mut ports: Vec<i32> = Vec::new();
    ports.push(INTERNAL_KBS_PORT);
    assert(ports.deep_view() =~= seq![INTERNAL_KBS_PORT]);
    let container = Container {
        name: "kbs".to_owned(),
        image: image.to_owned(),
        command,
        ports: Some(ports),
        volume_mounts,
    };
    let mut containers: Vec<Container> = Vec::new();
    containers.push(container);
    assert(containers.deep_view() =~= wanted.containers) by {
        assert(container.deep_view() =~= wanted.containers[0]);
    }
    PodSpec { service_account_name: None, containers, volumes, restart_policy: None }
}

/// The deployment of the service.
pub open spec fn kbs_deployment(owner: OwnerReferenceView, image: Seq<char>) -> DeploymentView {
    DeploymentView {
        metadata: owned(DEPLOYMENT_NAME@, owner),
        match_labels: kbs_labels(),
        pod_labels: kbs_labels(),
        pod_spec: kbs_pod_spec(image),
    }
}

/// Makes the deployment of the service.
pub fn generate_kbs_deployment(owner_reference: OwnerReference, image: &str) -> (deployment:
    Deployment)
    ensures
        deployment.deep_view() == kbs_deployment(owner_reference.deep_view(), image@),
{
    Deployment {
        metadata: ObjectMeta::owned(DEPLOYMENT_NAME, owner_reference),
        match_labels: one_entry("app", "kbs"),
        pod_labels: one_entry("app", "kbs"),
        pod_spec: generate_kbs_pod_spec(image),
    }
}

/// The volumes of the service have different names, and each mount has its volume.
pub proof fn kbs_mounts_are_backed(image: Seq<char>)
    ensures
        mounts_are_backed(kbs_pod_spec(image)),
{
    reveal_strlit("attestation-policy");
    reveal_strlit("trustee-data");
    reveal_strlit("resource-dir");
    let pod = kbs_pod_spec(image);
    assert(ATT_POLICY_MAP@[0] == 'a' && TRUSTEE_DATA_MAP@[0] == 't' && "resource-dir"@[0] == 'r');
    assert forall|c: int, m: int|
        0 <= c < pod.containers.len() && 0 <= m < pod.containers[c].volume_mounts.len() implies
        has_volume(pod, (#[trigger] pod.containers[c].volume_mounts[m]).name) by {
        assert(pod.volumes[m].name == pod.containers[c].volume_mounts[m].name);
    }
}

/// The container at a place mounts the config map of a name at a path.
pub open spec fn mounts_config_map(
    pod: PodSpecView,
    container: int,
    name: Seq<char>,
    path: Seq<char>,
) -> bool {
    exists|m: int, v: int|
        {
            &&& 0 <= m < pod.containers[container].volume_mounts.len()
            &&& 0 <= v < pod.volumes.len()
            &&& (#[trigger] pod.containers[container].volume_mounts[m]).mount_path == path
            &&& pod.containers[container].volume_mounts[m].name == (#[trigger] pod.volumes[v]).name
            &&& pod.volumes[v].source == VolumeSourceView::ConfigMap { name, items: None }
        }
}

/// The service finds its configuration: the config map that holds it is mounted, and the path on
/// the command line is that of the configuration file below the mount.
pub proof fn kbs_finds_its_configuration(
    owner: OwnerReferenceView,
    kbs_config: Seq<char>,
    policy_rego: Seq<char>,
    image: Seq<char>,
)
    ensures
        ({
            let map = trustee_data(owner, kbs_config, policy_rego);
            let pod = kbs_deployment(owner, image).pod_spec;
            &&& map.metadata.name == Some(TRUSTEE_DATA_MAP@)
            &&& mounts_config_map(pod, 0, TRUSTEE_DATA_MAP@, TRUSTEE_DATA_DIR@)
            &&& map.data->0.contains_pair(KBS_CONFIG_FILE@, kbs_config)
            &&& pod.containers[0].command.last() == TRUSTEE_DATA_DIR@ + "/"@ + KBS_CONFIG_FILE@
        }),
{
    reveal_strlit("kbs-config.toml");
    reveal_strlit("policy.rego");
    reveal_strlit("reference-values.json");
    let pod = kbs_deployment(owner, image).pod_spec;
    assert(pod.containers[0].volume_mounts[1].mount_path == TRUSTEE_DATA_DIR@);
    assert(pod.volumes[1].name == TRUSTEE_DATA_MAP@);
}

/// The service finds its policies: the config map that holds them is mounted.
pub proof fn kbs_finds_its_policies(
    owner: OwnerReferenceView,
    policy_rego: Seq<char>,
    image: Seq<char>,
)
    ensures
        attestation_policy(owner, policy_rego).metadata.name == Some(ATT_POLICY_MAP@),
        mounts_config_map(
            kbs_deployment(owner, image).pod_spec,
            0,
            ATT_POLICY_MAP@,
            "/opt/trustee/policies/opa"@,
        ),
{
    let pod = kbs_deployment(owner, image).pod_spec;
    assert(pod.containers[0].volume_mounts[0].mount_path == "/opt/trustee/policies/opa"@);
    assert(pod.volumes[0].name == ATT_POLICY_MAP@);
}

/// The service reaches the pods of the deployment: it selects them by the labels that the
/// deployment gives them and takes for its own, and forwards to a port of their container.
pub proof fn service_reaches_deployment(
    owner: OwnerReferenceView,
    kbs_port: i32,
    image: Seq<char>,
)
    ensures
        ({
            let service = kbs_service(owner, kbs_port);
            let deployment = kbs_deployment(owner, image);
            &&& service.selector.submap_of(deployment.pod_labels)
            &&& deployment.match_labels.submap_of(deployment.pod_labels)
            &&& forall|i: int|
                0 <= i < service.ports.len()
                    ==> deployment.pod_spec.containers[0].ports->0.contains(
                    (#[trigger] service.ports[i]).target_port,
                )
        }),
{
    let ports = kbs_deployment(owner, image).pod_spec.containers[0].ports->0;
    assert(ports[0] == INTERNAL_KBS_PORT);
}

/// A mounted secret is the one that was generated under the same id, and it is mounted below the
/// directory that the pod has for secrets.
pub proof fn mounted_secret_is_the_generated_one(
    id: Seq<char>,
    key: Seq<u8>,
    image: Seq<char>,
)
    ensures
        secret_of(id, key).metadata.name == Some(id),
        secret_volume(id).source == (VolumeSourceView::Secret { secret_name: id }),
        secret_mount(id).name == secret_volume(id).name,
        secret_mount(id).mount_path == kbs_pod_spec(image).containers[0].volume_mounts[2].mount_path
            + "/"@ + id,
{
}

/// The secrets of different ids are mounted at different paths.
pub proof fn secrets_are_mounted_apart(a: Seq<char>, b: Seq<char>)
    requires
        secret_mount(a).mount_path == secret_mount(b).mount_path,
    ensures
        a == b,
{
    let n = (TRUSTEE_SECRETS_PATH@ + "/"@).len() as int;
    assert(secret_mount(a).mount_path.skip(n) =~= a);
    assert(secret_mount(b).mount_path.skip(n) =~= b);
}

/// The name of a volume that was fetched or made.
pub open spec fn volume_name<V>(volume: HeldView<VolumeView, V>, fetched: spec_fn(V) -> Seq<
    char,
>) -> Seq<char> {
    match volume {
        HeldView::Fetched(volume) => fetched(volume),
        HeldView::Made(volume) => volume.name,
    }
}

/// The name of the volume behind a mount that was fetched or made.
pub open spec fn mount_name<M>(mount: HeldView<VolumeMountView, M>, fetched: spec_fn(M) -> Seq<
    char,
>) -> Seq<char> {
    match mount {
        HeldView::Fetched(mount) => fetched(mount),
        HeldView::Made(mount) => mount.name,
    }
}

/// The pod has a volume of this name.
pub open spec fn holds_volume<V, M>(
    pod: PodMountsView<V, M>,
    name: Seq<char>,
    volume: spec_fn(V) -> Seq<char>,
) -> bool {
    pod.volumes is Some && exists|v: int|
        0 <= v < pod.volumes->0.len() && volume_name(#[trigger] pod.volumes->0[v], volume) == name
}

/// Whatever a container mounts is a volume of the pod. `volume` and `mount` tell the names of
/// volumes and mounts that were fetched.
pub open spec fn holds_what_it_mounts<V, M>(
    pod: PodMountsView<V, M>,
    volume: spec_fn(V) -> Seq<char>,
    mount: spec_fn(M) -> Seq<char>,
) -> bool {
    forall|c: int, m: int|
        0 <= c < pod.mounts.len() && pod.mounts[c] is Some && 0 <= m < pod.mounts[c]->0.len()
            ==> holds_volume(pod, mount_name(#[trigger] pod.mounts[c]->0[m], mount), volume)
}

/// Mounting a secret never leaves a mount without its volume.
pub proof fn mounting_keeps_mounts_backed<V, M>(
    pod: PodMountsView<V, M>,
    id: Seq<char>,
    volume: spec_fn(V) -> Seq<char>,
    mount: spec_fn(M) -> Seq<char>,
)
    requires
        pod.mounts.len() > 0,
        holds_what_it_mounts(pod, volume, mount),
    ensures
        holds_what_it_mounts(secret_mounted(pod, id), volume, mount),
{
    let new = secret_mounted(pod, id);
    let old_volumes = match pod.volumes {
        Some(volumes) => volumes,
        None => Seq::empty(),
    };
    assert(new.volumes->0 =~= old_volumes.push(HeldView::Made(secret_volume(id))));
    assert forall|c: int, m: int|
        0 <= c < new.mounts.len() && new.mounts[c] is Some && 0 <= m
            < new.mounts[c]->0.len() implies holds_volume(
        new,
        mount_name(#[trigger] new.mounts[c]->0[m], mount),
        volume,
    ) by {
        let name = mount_name(new.mounts[c]->0[m], mount);
        let was_there = pod.mounts[c] is Some && m < pod.mounts[c]->0.len();
        if was_there {
            assert(new.mounts[c]->0[m] == pod.mounts[c]->0[m]);
            assert(holds_volume(pod, name, volume));
            let v = choose|v: int|
                0 <= v < pod.volumes->0.len() && volume_name(#[trigger] pod.volumes->0[v], volume)
                    == name;
            assert(new.volumes->0[v] == pod.volumes->0[v]);
        } else {
            assert(c == 0);
            let last = old_volumes.len() as int;
            assert(volume_name(new.volumes->0[last], volume) == id);
        }
    }
}

} // verus!
