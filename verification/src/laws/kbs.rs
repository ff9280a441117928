//! Laws of the objects and the secrets of the key broker service.
use crate::error::OperatorError;
use crate::kbs::{
    generate_attestation_policy, generate_kbs_deployment, generate_kbs_pod_spec,
    generate_kbs_service, generate_kbs_volume_templates, generate_luks_key, generate_secret,
    generate_secret_volume, generate_trustee_data, luks_jwk, mount_secret, Held, Jwk, PodMounts,
};
use crate::kube_objects::{
    ConfigMap, Deployment, ObjectMeta, OwnerReference, PodSpec, Secret, Service, Volume,
    VolumeMount, VolumeSource,
};
use crate::laws::basics::{is_only_named, is_owned_by, lists_are_seen_whole};
use crate::outside::{base64_char, base64_digit, base64_of, byte_or_zero};
use vstd::prelude::*;
use vstd::utf8::*;

verus! {

/// Metadata that is seen with one owner has that owner.
pub proof fn one_owner_is_seen(meta: ObjectMeta, name: Seq<char>, owner: OwnerReference)
    requires
        meta.deep_view().name == Some(name),
        meta.deep_view().labels is None,
        meta.deep_view().owner_references == Some(seq![owner.deep_view()]),
    ensures
        is_owned_by(meta, name, owner),
{
    let owners = meta.owner_references->0;
    lists_are_seen_whole(owners);
    assert(owners.deep_view()[0] == owner.deep_view());
}

/// The volume of a secret holds the secret of the same id, and it is mounted under its id below the
/// directory of secrets.
pub proof fn secret_volumes_hold_their_secret(id: &str, r: (Volume, VolumeMount))
    requires
        call_ensures(generate_secret_volume, (id,), r),
    ensures
        r.0.name@ == id@,
        r.0.source matches VolumeSource::Secret { secret_name } && secret_name@ == id@,
        r.1.name@ == id@,
        r.1.mount_path@ == "/opt/trustee/kbs-repository/default"@ + "/"@ + id@,
{
}

/// A mount is the same as before.
pub open spec fn same_mount<M>(a: Held<VolumeMount, M>, b: Held<VolumeMount, M>) -> bool {
    match (a, b) {
        (Held::Fetched(x), Held::Fetched(y)) => x == y,
        (Held::Made(x), Held::Made(y)) => x.name@ == y.name@ && x.mount_path@ == y.mount_path@,
        _ => false,
    }
}

/// A volume is the same as before.
pub open spec fn same_volume<V>(a: Held<Volume, V>, b: Held<Volume, V>) -> bool {
    match (a, b) {
        (Held::Fetched(x), Held::Fetched(y)) => x == y,
        (Held::Made(x), Held::Made(y)) => x.name@ == y.name@ && x.source.deep_view()
            == y.source.deep_view(),
        _ => false,
    }
}

/// The parts of a list that may be missing.
pub open spec fn parts<T>(list: Option<Vec<T>>) -> Seq<T> {
    match list {
        Some(items) => items@,
        None => Seq::empty(),
    }
}

/// Mounting a secret keeps every volume and every mount of every container at its place. The pod
/// gets one volume more, the first container one mount more, and the others none.
pub proof fn mounting_keeps_what_was_there<V, M>(
    old: PodMounts<V, M>,
    id: &str,
    pod: Result<PodMounts<V, M>, OperatorError>,
)
    requires
        call_ensures(mount_secret::<V, M>, (Some(Some(old)), id), pod),
        old.mounts@.len() > 0,
    ensures
        pod is Ok,
        ({
            let new = pod->Ok_0;
            &&& parts(new.volumes).len() == parts(old.volumes).len() + 1
            &&& forall|v: int|
                0 <= v < parts(old.volumes).len() ==> same_volume(
                    #[trigger] parts(new.volumes)[v],
                    parts(old.volumes)[v],
                )
            &&& new.mounts@.len() == old.mounts@.len()
            &&& parts(new.mounts@[0]).len() == parts(old.mounts@[0]).len() + 1
            &&& forall|c: int|
                0 < c < old.mounts@.len() ==> {
                    &&& (#[trigger] new.mounts@[c] is Some) == (old.mounts@[c] is Some)
                    &&& parts(new.mounts@[c]).len() == parts(old.mounts@[c]).len()
                }
            &&& forall|c: int, m: int|
                0 <= c < old.mounts@.len() && 0 <= m < parts(old.mounts@[c]).len() ==> same_mount(
                    #[trigger] parts(new.mounts@[c])[m],
                    parts(old.mounts@[c])[m],
                )
        }),
{
    let new = pod->Ok_0;
    let a = old.deep_view();
    let b = new.deep_view();
    lists_are_seen_whole(new.volumes->0);
    if old.volumes is Some {
        lists_are_seen_whole(old.volumes->0);
    }
    assert forall|v: int| 0 <= v < parts(old.volumes).len() implies same_volume(
        #[trigger] parts(new.volumes)[v],
        parts(old.volumes)[v],
    ) by {
        assert(b.volumes->0[v] == a.volumes->0[v]);
        assert(new.volumes->0.deep_view()[v] == old.volumes->0.deep_view()[v]);
    }
    lists_are_seen_whole(new.mounts);
    lists_are_seen_whole(old.mounts);
    assert(b.mounts[0] == new.mounts@[0].deep_view() && a.mounts[0] == old.mounts@[0].deep_view());
    lists_are_seen_whole(new.mounts@[0]->0);
    if old.mounts@[0] is Some {
        lists_are_seen_whole(old.mounts@[0]->0);
    }
    assert forall|c: int| 0 < c < old.mounts@.len() implies {
        &&& (#[trigger] new.mounts@[c] is Some) == (old.mounts@[c] is Some)
        &&& parts(new.mounts@[c]).len() == parts(old.mounts@[c]).len()
    } by {
        assert(b.mounts[c] == a.mounts[c]);
        assert(b.mounts[c] == new.mounts@[c].deep_view());
        assert(a.mounts[c] == old.mounts@[c].deep_view());
        if old.mounts@[c] is Some {
            lists_are_seen_whole(old.mounts@[c]->0);
            lists_are_seen_whole(new.mounts@[c]->0);
        }
    }
    assert forall|c: int, m: int|
        0 <= c < old.mounts@.len() && 0 <= m < parts(old.mounts@[c]).len() implies same_mount(
        #[trigger] parts(new.mounts@[c])[m],
        parts(old.mounts@[c])[m],
    ) by {
        assert(b.mounts[c] == new.mounts@[c].deep_view());
        assert(a.mounts[c] == old.mounts@[c].deep_view());
        lists_are_seen_whole(old.mounts@[c]->0);
        lists_are_seen_whole(new.mounts@[c]->0);
        assert(b.mounts[c]->0[m] == a.mounts[c]->0[m]);
    }
}

/// What is added when a secret is mounted is a volume with the secret, and a mount of that volume
/// under the id below the directory of secrets. Both come last.
pub proof fn mounting_adds_the_secret<V, M>(
    old: PodMounts<V, M>,
    id: &str,
    pod: Result<PodMounts<V, M>, OperatorError>,
)
    requires
        call_ensures(mount_secret::<V, M>, (Some(Some(old)), id), pod),
        pod is Ok,
    ensures
        parts(pod->Ok_0.volumes).last() matches Held::Made(volume) && volume.name@ == id@ && (
        volume.source matches VolumeSource::Secret { secret_name } && secret_name@ == id@),
        parts(pod->Ok_0.mounts@[0]).last() matches Held::Made(mount) && mount.name@ == id@
            && mount.mount_path@ == "/opt/trustee/kbs-repository/default"@ + "/"@ + id@,
{
    let new = pod->Ok_0;
    let b = new.deep_view();
    lists_are_seen_whole(new.volumes->0);
    assert(new.volumes->0.deep_view().last() == new.volumes->0@.last().deep_view());
    lists_are_seen_whole(new.mounts);
    assert(b.mounts[0] == new.mounts@[0].deep_view());
    lists_are_seen_whole(new.mounts@[0]->0);
    assert(new.mounts@[0]->0.deep_view().last() == new.mounts@[0]->0@.last().deep_view());
}

/// A secret can be mounted exactly if the deployment has a spec with a pod that has a container.
pub proof fn mounting_needs_a_container<V, M>(
    deployment: Option<Option<PodMounts<V, M>>>,
    id: &str,
    pod: Result<PodMounts<V, M>, OperatorError>,
)
    requires
        call_ensures(mount_secret::<V, M>, (deployment, id), pod),
    ensures
        deployment is None <==> pod is Err && pod->Err_0 is NoDeploymentSpec,
        deployment is Some && deployment->0 is None <==> pod is Err && pod->Err_0 is NoPodSpec,
        deployment is Some && deployment->0 is Some && deployment->0->0.mounts@.len() == 0
            <==> pod is Err && pod->Err_0 is NoContainers,
{
}

/// A secret has the name of its id and holds its key and nothing else.
pub proof fn secrets_hold_their_key(id: &str, key: Vec<u8>, secret: Secret)
    requires
        call_ensures(generate_secret, (id, key), secret),
    ensures
        is_only_named(secret.metadata, id@),
        secret.data@.contains_pair("root"@, key@),
        forall|other: Seq<char>| #[trigger] secret.data@.contains_key(other) ==> other == "root"@,
{
    assert(secret.deep_view().data.contains_pair("root"@, key@));
    assert(secret.deep_view().metadata.name == Some(id@));
}

/// The notation of a key has four characters for each three bytes that have begun, each of them
/// standing for six bits.
pub proof fn keys_are_written_in_base64(pass: &[u8], jwk: Jwk)
    requires
        call_ensures(luks_jwk, (pass,), jwk),
    ensures
        jwk.key_type@ == "oct"@,
        jwk.key@ == base64_of(pass@),
        jwk.key@.len() == (pass@.len() + 2) / 3 * 4,
{
}

/// A fresh key is written in 32 bytes and stands for 24. Only OpenSSL can fail.
pub proof fn fresh_keys_have_their_length(jwk: Result<Jwk, OperatorError>)
    requires
        call_ensures(generate_luks_key, (), jwk),
    ensures
        jwk is Err ==> jwk->Err_0 is Openssl,
        jwk is Ok ==> {
            &&& jwk->Ok_0.key_type@ == "oct"@
            &&& encode_utf8(jwk->Ok_0.key@).len() == 32
            &&& exists|pass: Seq<u8>|
                pass.len() == 24 && jwk->Ok_0.key@ == #[trigger] base64_of(pass)
        },
{
}

/// The number that a Base64 digit stands for.
pub open spec fn sextet_of(c: char) -> int {
    if 'A' <= c <= 'Z' {
        c as int - 'A' as int
    } else if 'a' <= c <= 'z' {
        c as int - 'a' as int + 26
    } else if '0' <= c <= '9' {
        c as int - '0' as int + 52
    } else if c == '+' {
        62
    } else {
        63
    }
}

/// Base64 digits stand for their numbers.
proof fn base64_digits_stand_for_numbers(n: int)
    requires
        0 <= n < 64,
    ensures
        sextet_of(base64_digit(n)) == n,
{
    let code = if n < 26 {
        65 + n
    } else if n < 52 {
        71 + n
    } else if n < 62 {
        n - 4
    } else if n == 62 {
        43
    } else {
        47
    };
    assert(base64_digit(n) as int == code);
}

/// Each three bytes of a key can be read back from their four characters.
pub proof fn base64_is_read_back(bytes: Seq<u8>, g: int)
    requires
        0 <= g,
        3 * g + 2 < bytes.len(),
    ensures
        ({
            let text = base64_of(bytes);
            let a = sextet_of(text[4 * g]);
            let b = sextet_of(text[4 * g + 1]);
            let c = sextet_of(text[4 * g + 2]);
            let d = sextet_of(text[4 * g + 3]);
            &&& bytes[3 * g] == a * 4 + b / 16
            &&& bytes[3 * g + 1] == b % 16 * 16 + c / 4
            &&& bytes[3 * g + 2] == c % 4 * 64 + d
        }),
{
    let text = base64_of(bytes);
    let i = 4 * g;
    assert(i + 3 < text.len());
    assert(text[i] == base64_char(bytes, i) && text[i + 1] == base64_char(bytes, i + 1));
    assert(text[i + 2] == base64_char(bytes, i + 2) && text[i + 3] == base64_char(bytes, i + 3));
    assert(i / 4 == g && (i + 1) / 4 == g && (i + 2) / 4 == g && (i + 3) / 4 == g);
    let b0 = byte_or_zero(bytes, g * 3);
    let b1 = byte_or_zero(bytes, g * 3 + 1);
    let b2 = byte_or_zero(bytes, g * 3 + 2);
    base64_digits_stand_for_numbers(b0 / 4);
    base64_digits_stand_for_numbers(b0 % 4 * 16 + b1 / 16);
    base64_digits_stand_for_numbers(b1 % 16 * 4 + b2 / 64);
    base64_digits_stand_for_numbers(b2 % 64);
}

/// The config map of the attestation policies belongs to its owner. It holds the given policy for
/// processors, an empty one for graphics processors, and nothing else.
pub proof fn policies_are_kept_whole(owner: OwnerReference, policy: &str, map: ConfigMap)
    requires
        call_ensures(generate_attestation_policy, (owner, policy), map),
    ensures
        is_owned_by(map.metadata, "attestation-policy"@, owner),
        map.data is Some,
        map.data->0@.contains_pair("default_cpu.rego"@, policy@),
        map.data->0@.contains_pair("default_gpu.rego"@, Seq::<char>::empty()),
        forall|file: Seq<char>| #[trigger]
            map.data->0@.contains_key(file) ==> file == "default_cpu.rego"@ || file
                == "default_gpu.rego"@,
{
    reveal_strlit("default_cpu.rego");
    reveal_strlit("default_gpu.rego");
    assert("default_cpu.rego"@[8] == 'c' && "default_gpu.rego"@[8] == 'g');
    assert(map.deep_view().data is Some);
    one_owner_is_seen(map.metadata, "attestation-policy"@, owner);
}

/// The config map with the files of the service belongs to its owner. It holds the given
/// configuration and the given policy, an empty JSON object for the reference values, and nothing
/// else.
pub proof fn service_files_are_kept_whole(
    owner: OwnerReference,
    kbs_config: &str,
    policy: &str,
    map: ConfigMap,
)
    requires
        call_ensures(generate_trustee_data, (owner, kbs_config, policy), map),
    ensures
        is_owned_by(map.metadata, "trustee-data"@, owner),
        map.data is Some,
        map.data->0@.contains_pair("kbs-config.toml"@, kbs_config@),
        map.data->0@.contains_pair("policy.rego"@, policy@),
        map.data->0@.contains_pair("reference-values.json"@, "{}"@),
        forall|file: Seq<char>| #[trigger]
            map.data->0@.contains_key(file) ==> file == "kbs-config.toml"@ || file
                == "policy.rego"@ || file == "reference-values.json"@,
{
    reveal_strlit("kbs-config.toml");
    reveal_strlit("policy.rego");
    reveal_strlit("reference-values.json");
    assert("kbs-config.toml"@.len() == 15 && "policy.rego"@.len() == 11);
    assert("reference-values.json"@.len() == 21);
    assert(map.deep_view().data is Some);
    one_owner_is_seen(map.metadata, "trustee-data"@, owner);
}

/// The service belongs to its owner, listens on the given port and forwards to the port of the
/// pods that are labelled as those of the key broker service.
pub proof fn the_service_listens_on_its_port(
    owner: OwnerReference,
    kbs_port: i32,
    service: Service,
)
    requires
        call_ensures(generate_kbs_service, (owner, kbs_port), service),
    ensures
        is_owned_by(service.metadata, "kbs-service"@, owner),
        service.selector@ == map!["app"@ => "kbs"@],
        service.ports@.len() == 1,
        service.ports@[0].name@ == "kbs-port"@,
        service.ports@[0].port == kbs_port,
        service.ports@[0].target_port == 8080,
{
    assert(service.deep_view().selector == map!["app"@ => "kbs"@]);
    lists_are_seen_whole(service.ports);
    assert(service.ports.deep_view()[0] == service.ports@[0].deep_view());
    one_owner_is_seen(service.metadata, "kbs-service"@, owner);
}

/// The source is the whole config map of a name.
pub open spec fn is_config_map(source: VolumeSource, map: Seq<char>) -> bool {
    source matches VolumeSource::ConfigMap { name, items } && name@ == map && items is None
}

/// The service has three volumes: the policies, its files, and a directory in memory.
pub proof fn the_service_has_three_volumes(templates: Vec<(String, String, VolumeSource)>)
    requires
        call_ensures(generate_kbs_volume_templates, (), templates),
    ensures
        templates@.len() == 3,
        templates@[0].0@ == "attestation-policy"@,
        templates@[0].1@ == "/opt/trustee/policies/opa"@,
        is_config_map(templates@[0].2, "attestation-policy"@),
        templates@[1].0@ == "trustee-data"@,
        templates@[1].1@ == "/opt/trustee"@,
        is_config_map(templates@[1].2, "trustee-data"@),
        templates@[2].0@ == "resource-dir"@,
        templates@[2].1@ == "/opt/trustee/kbs-repository/default"@,
        templates@[2].2 matches VolumeSource::EmptyDir { medium } && medium@ == "Memory"@,
{
    lists_are_seen_whole(templates);
    assert(templates.deep_view()[0] == templates@[0].deep_view());
    assert(templates.deep_view()[1] == templates@[1].deep_view());
    assert(templates.deep_view()[2] == templates@[2].deep_view());
}

/// The pod of the service runs the given image with its configuration file, on its port, and sees
/// its three volumes, each of which the pod has under the same name.
pub open spec fn runs_kbs(pod: PodSpec, image: Seq<char>) -> bool {
    let container = pod.containers@[0];
    &&& pod.service_account_name is None
    &&& pod.restart_policy is None
    &&& pod.containers@.len() == 1
    &&& container.name@ == "kbs"@
    &&& container.image@ == image
    &&& container.command@.len() == 3
    &&& container.command@[0]@ == "/usr/local/bin/kbs"@
    &&& container.command@[1]@ == "--config-file"@
    &&& container.command@[2]@ == "/opt/trustee"@ + "/"@ + "kbs-config.toml"@
    &&& container.ports is Some && container.ports->0@ == seq![8080i32]
    &&& container.volume_mounts@.len() == 3
    &&& container.volume_mounts@[0].mount_path@ == "/opt/trustee/policies/opa"@
    &&& container.volume_mounts@[1].mount_path@ == "/opt/trustee"@
    &&& container.volume_mounts@[2].mount_path@ == "/opt/trustee/kbs-repository/default"@
    &&& pod.volumes@.len() == 3
    &&& forall|v: int|
        0 <= v < 3 ==> (#[trigger] pod.volumes@[v]).name@ == container.volume_mounts@[v].name@
    &&& pod.volumes@[0].name@ == "attestation-policy"@
    &&& pod.volumes@[1].name@ == "trustee-data"@
    &&& pod.volumes@[2].name@ == "resource-dir"@
    &&& is_config_map(pod.volumes@[0].source, "attestation-policy"@)
    &&& is_config_map(pod.volumes@[1].source, "trustee-data"@)
    &&& pod.volumes@[2].source matches VolumeSource::EmptyDir { medium } && medium@ == "Memory"@
}

/// A pod that is seen as that of the service runs it.
proof fn pod_is_seen_whole(pod: PodSpec, image: Seq<char>)
    requires
        pod.deep_view() == crate::kbs::kbs_pod_spec(image),
    ensures
        runs_kbs(pod, image),
{
    lists_are_seen_whole(pod.containers);
    lists_are_seen_whole(pod.volumes);
    let container = pod.containers@[0];
    assert(pod.containers.deep_view()[0] == container.deep_view());
    assert(container.deep_view().command.len() == 3);
    lists_are_seen_whole(container.command);
    assert(container.command.deep_view()[0] == container.command@[0]@);
    assert(container.command.deep_view()[1] == container.command@[1]@);
    assert(container.command.deep_view()[2] == container.command@[2]@);
    assert(container.ports is Some);
    lists_are_seen_whole(container.ports->0);
    assert(container.ports->0.deep_view()[0] == container.ports->0@[0]);
    assert(container.ports->0@ =~= seq![8080i32]);
    lists_are_seen_whole(container.volume_mounts);
    assert(container.deep_view().volume_mounts.len() == 3);
    assert forall|v: int| 0 <= v < 3 implies (#[trigger] pod.volumes@[v]).name@
        == container.volume_mounts@[v].name@ by {
        assert(pod.volumes.deep_view()[v] == pod.volumes@[v].deep_view());
        assert(container.volume_mounts.deep_view()[v] == container.volume_mounts@[v].deep_view());
    }
    assert(pod.volumes.deep_view()[0] == pod.volumes@[0].deep_view());
    assert(pod.volumes.deep_view()[1] == pod.volumes@[1].deep_view());
    assert(pod.volumes.deep_view()[2] == pod.volumes@[2].deep_view());
    assert(container.volume_mounts.deep_view()[0] == container.volume_mounts@[0].deep_view());
    assert(container.volume_mounts.deep_view()[1] == container.volume_mounts@[1].deep_view());
    assert(container.volume_mounts.deep_view()[2] == container.volume_mounts@[2].deep_view());
}

/// The pod that is made runs the service from the given image.
pub proof fn the_pod_runs_its_image(image: &str, pod: PodSpec)
    requires
        call_ensures(generate_kbs_pod_spec, (image,), pod),
    ensures
        runs_kbs(pod, image@),
{
    pod_is_seen_whole(pod, image@);
}

/// The deployment belongs to its owner, runs the service from the given image, and labels its pods
/// as the service selects them.
pub proof fn the_deployment_runs_its_image(
    owner: OwnerReference,
    image: &str,
    deployment: Deployment,
)
    requires
        call_ensures(generate_kbs_deployment, (owner, image), deployment),
    ensures
        is_owned_by(deployment.metadata, "trustee-deployment"@, owner),
        runs_kbs(deployment.pod_spec, image@),
        deployment.match_labels@ == map!["app"@ => "kbs"@],
        deployment.pod_labels@ == map!["app"@ => "kbs"@],
{
    assert(deployment.deep_view().match_labels == map!["app"@ => "kbs"@]);
    assert(deployment.deep_view().pod_labels == map!["app"@ => "kbs"@]);
    one_owner_is_seen(deployment.metadata, "trustee-deployment"@, owner);
    pod_is_seen_whole(deployment.pod_spec, image@);
}

} // verus!
