use operator::error::OperatorError;
use operator::kbs::{
    generate_attestation_policy, generate_kbs_deployment, generate_kbs_service,
    generate_luks_key, generate_secret, generate_secret_volume, generate_trustee_data, luks_jwk,
    mount_secret, Held, PodMounts,
};
use operator::kube_objects::{ConfigMap, ObjectMeta, OwnerReference, VolumeSource};
use operator::ordered::TextMap;
use operator::patch::{patch, PatchOperation, PatchValue};
use operator::reference_value::Timestamp;
use operator::rv_store::{ImagePcrs, Pcr};
use operator::trustee::{
    collect_accepted_values, get_image_pcrs, read_clock, recompute_reference_values, stamp,
    stamp_all, update_reference_values,
};

fn texts(list: &[&str]) -> Vec<String> {
    list.iter().map(|text| text.to_string()).collect()
}

fn owner() -> OwnerReference {
    OwnerReference {
        api_version: "v1alpha1".to_string(),
        kind: "ConfidentialCluster".to_string(),
        name: "cluster".to_string(),
        uid: "0".to_string(),
        controller: Some(true),
        block_owner_deletion: None,
    }
}

fn is_owned(meta: &ObjectMeta, name: &str) -> bool {
    let owners = meta.owner_references.as_ref().unwrap();
    meta.name.as_deref() == Some(name)
        && meta.labels.is_none()
        && owners.len() == 1
        && owners[0].name == "cluster"
        && owners[0].controller == Some(true)
}

fn pcr(id: u64, value: &str) -> Pcr {
    Pcr {
        id,
        value: value.to_string(),
        extra: "{}".to_string(),
    }
}

fn store() -> ImagePcrs {
    let ImagePcrs(map) = ImagePcrs::default();
    let map = map.insert("b".to_string(), vec![pcr(4, "b4"), pcr(7, "7")]);
    let map = map.insert("a".to_string(), vec![pcr(14, "a14"), pcr(4, "a4"), pcr(7, "7")]);
    ImagePcrs(map)
}

fn config_map(entries: &[(&str, &str)]) -> ConfigMap {
    let mut data: TextMap<String> = TextMap::new();
    for (key, text) in entries {
        data = data.insert(key.to_string(), text.to_string());
    }
    ConfigMap {
        metadata: ObjectMeta::named("map"),
        data: Some(data),
    }
}

fn no_data() -> ConfigMap {
    ConfigMap {
        metadata: ObjectMeta::named("map"),
        data: None,
    }
}

#[test]
fn accepted_values_are_those_of_all_images() {
    let map = collect_accepted_values(&store());
    assert_eq!(
        map.into_entries(),
        vec![
            ("tpm_pcr14".to_string(), texts(&["a14"])),
            ("tpm_pcr4".to_string(), texts(&["a4", "b4"])),
            ("tpm_pcr7".to_string(), texts(&["7", "7"])),
            ("tpm_svn".to_string(), texts(&["1"])),
        ]
    );
}

#[test]
fn reference_values_are_recomputed() {
    let before = Timestamp::now().secs();
    let rvs = recompute_reference_values(store()).unwrap();
    let after = Timestamp::now().secs();
    let names: Vec<&str> = rvs.iter().map(|rv| rv.name.as_str()).collect();
    assert_eq!(names, ["tpm_pcr14", "tpm_pcr4", "tpm_pcr7", "tpm_svn"]);
    assert_eq!(rvs[1].value, texts(&["a4", "b4"]));
    for rv in rvs.iter() {
        assert_eq!(rv.version.as_str(), "0.1.0");
        let made = rv.expiration.secs() - 365 * 86400;
        assert!(before <= made && made <= after);
    }
    let rvs = recompute_reference_values(ImagePcrs::default()).unwrap();
    assert_eq!(rvs.len(), 1);
    assert_eq!(rvs[0].name, "tpm_svn");
    assert_eq!(rvs[0].value, texts(&["1"]));
}

#[test]
fn a_clock_too_far_ahead_is_an_error() {
    let late = Timestamp::new(operator::outside::LAST_SECOND, 0).unwrap();
    let result = stamp("tpm_svn".to_string(), texts(&["1"]), late);
    assert!(matches!(result, Err(OperatorError::ExpiryOutOfRange)));
    assert_eq!(
        OperatorError::ExpiryOutOfRange.message().unwrap(),
        "`DateTime + TimeDelta` overflowed"
    );
}

#[test]
fn a_whole_list_is_stamped() {
    let entries = vec![
        ("tpm_pcr4".to_string(), texts(&["a", "b"])),
        ("tpm_svn".to_string(), texts(&["1"])),
    ];
    let nows = vec![Timestamp::new(0, 5).unwrap(), Timestamp::new(86400, 0).unwrap()];
    let rvs = stamp_all(&entries, &nows).unwrap();
    assert_eq!(rvs.len(), 2);
    assert_eq!(rvs[0].name, "tpm_pcr4");
    assert_eq!(rvs[0].value, texts(&["a", "b"]));
    assert_eq!(rvs[0].expiration, Timestamp::new(365 * 86400, 5).unwrap());
    assert_eq!(rvs[1].name, "tpm_svn");
    assert_eq!(rvs[1].expiration, Timestamp::new(366 * 86400, 0).unwrap());
    let late = Timestamp::new(operator::outside::LAST_SECOND, 0).unwrap();
    let result = stamp_all(&entries, &vec![Timestamp::new(0, 0).unwrap(), late]);
    assert!(matches!(result, Err(OperatorError::ExpiryOutOfRange)));
    assert_eq!(read_clock(3).len(), 3);
}

#[test]
fn image_pcrs_are_found() {
    let error = get_image_pcrs(&no_data()).err().unwrap();
    assert_eq!(error.message().unwrap(), "Image PCRs map existed, but had no data");
    let map = config_map(&[("other", "x")]);
    let error = get_image_pcrs(&map).err().unwrap();
    assert_eq!(error.message().unwrap(), "Image PCRs data existed, but had no file");
    let map = config_map(&[("image-pcrs.json", "{\"a\":[]}")]);
    assert_eq!(get_image_pcrs(&map).unwrap(), "{\"a\":[]}");
}

#[test]
fn reference_values_are_updated_by_a_patch() {
    let rvs = vec![
        stamp("tpm_svn".to_string(), texts(&["1"]), Timestamp::new(0, 0).unwrap()).unwrap(),
    ];
    let error = update_reference_values(&rvs, &no_data()).err().unwrap();
    assert_eq!(
        error.message().unwrap(),
        "ConfigMap trustee-data existed, but had no data"
    );
    let error = update_reference_values(&rvs, &config_map(&[])).err().unwrap();
    assert_eq!(
        error.message().unwrap(),
        "ConfigMap trustee-data existed, but had no reference values"
    );

    let data = generate_trustee_data(owner(), "config", "policy");
    let operations = update_reference_values(&rvs, &data).unwrap();
    assert_eq!(operations.len(), 2);
    match &operations[0] {
        PatchOperation::Test { path, value: PatchValue::Text(text) } => {
            assert_eq!(path, "/data/reference-values.json");
            assert_eq!(text, "{}");
        }
        _ => panic!("the existing text is tested first"),
    }
    match &operations[1] {
        PatchOperation::Add { path, value: PatchValue::Text(text) } => {
            assert_eq!(path, "/data/reference-values.json");
            assert_eq!(
                text,
                "[{\"version\":\"0.1.0\",\"name\":\"tpm_svn\",\
                 \"expiration\":\"1971-01-01T00:00:00Z\",\"value\":[\"1\"]}]"
            );
        }
        _ => panic!("the new text is added"),
    }
}

#[test]
fn a_patch_needs_a_json_pointer() {
    for path in ["", "/", "/data/a~1b", "/data/~0"] {
        let operations = patch(path, "old".to_string(), "new".to_string()).unwrap();
        assert_eq!(operations.len(), 2);
        match &operations[0] {
            PatchOperation::Test { path: tested, value: PatchValue::Text(text) } => {
                assert_eq!((tested.as_str(), text.as_str()), (path, "old"));
            }
            _ => panic!("the existing text is tested first"),
        }
    }
    for path in ["data", "/data/~", "/~2", "/a~x"] {
        let error = patch(path, String::new(), String::new()).err().unwrap();
        assert!(matches!(error, OperatorError::Pointer(_)));
        assert!(error.message().is_none());
    }
}

#[test]
fn keys_are_octets_in_base64() {
    let pass: Vec<u8> = (0..24).collect();
    let jwk = luks_jwk(&pass);
    assert_eq!(jwk.key_type, "oct");
    assert_eq!(jwk.key, "AAECAwQFBgcICQoLDA0ODxAREhMUFRYX");
    assert_eq!(luks_jwk(&[]).key, "");
    assert_eq!(luks_jwk(&[255]).key, "/w==");
    assert_eq!(luks_jwk(&[251, 239]).key, "++8=");
    assert_eq!(luks_jwk(&[0, 16, 131]).key, "ABCD");
    let a = generate_luks_key().unwrap();
    let b = generate_luks_key().unwrap();
    assert_eq!(a.key_type, "oct");
    assert_eq!(a.key.len(), 32);
    assert!(!a.key.contains('='));
    assert_ne!(a.key, b.key);
}

#[test]
fn secrets_hold_a_root_key() {
    let secret = generate_secret("id", vec![1, 2, 3]);
    assert_eq!(secret.metadata.name.as_deref(), Some("id"));
    assert!(secret.metadata.owner_references.is_none());
    assert_eq!(secret.data.into_entries(), vec![("root".to_string(), vec![1, 2, 3])]);
    let (volume, mount) = generate_secret_volume("id");
    assert_eq!(volume.name, "id");
    assert!(matches!(volume.source, VolumeSource::Secret { secret_name } if secret_name == "id"));
    assert_eq!(mount.name, "id");
    assert_eq!(mount.mount_path, "/opt/trustee/kbs-repository/default/id");
}

#[test]
fn a_secret_is_mounted_in_the_first_container() {
    let pod: PodMounts<&str, &str> = PodMounts {
        volumes: Some(vec![Held::Fetched("v")]),
        mounts: vec![None, Some(vec![Held::Fetched("m")])],
    };
    let pod = mount_secret(Some(Some(pod)), "id").unwrap();
    let volumes = pod.volumes.unwrap();
    assert_eq!(volumes.len(), 2);
    assert!(matches!(volumes[0], Held::Fetched("v")));
    assert!(matches!(&volumes[1], Held::Made(volume) if volume.name == "id"));
    assert_eq!(pod.mounts.len(), 2);
    let first = pod.mounts[0].as_ref().unwrap();
    assert_eq!(first.len(), 1);
    assert!(matches!(&first[0], Held::Made(mount) if mount.name == "id"));
    let second = pod.mounts[1].as_ref().unwrap();
    assert_eq!(second.len(), 1);
    assert!(matches!(second[0], Held::Fetched("m")));
}

#[test]
fn a_secret_needs_a_container_to_be_mounted_in() {
    let none: Option<Option<PodMounts<(), ()>>> = None;
    assert_eq!(
        mount_secret(none, "id").err().unwrap().message().unwrap(),
        "Deployment trustee-deployment existed, but had no spec"
    );
    let none: Option<Option<PodMounts<(), ()>>> = Some(None);
    assert_eq!(
        mount_secret(none, "id").err().unwrap().message().unwrap(),
        "Deployment trustee-deployment existed, but had no pod spec"
    );
    let pod: PodMounts<(), ()> = PodMounts {
        volumes: None,
        mounts: Vec::new(),
    };
    assert_eq!(
        mount_secret(Some(Some(pod)), "id").err().unwrap().message().unwrap(),
        "Deployment trustee-deployment existed, but had no containers"
    );
}

#[test]
fn config_maps_hold_their_files() {
    let map = generate_attestation_policy(owner(), "policy");
    assert!(is_owned(&map.metadata, "attestation-policy"));
    assert_eq!(
        map.data.unwrap().into_entries(),
        vec![
            ("default_cpu.rego".to_string(), "policy".to_string()),
            ("default_gpu.rego".to_string(), String::new()),
        ]
    );
    let map = generate_trustee_data(owner(), "config", "policy");
    assert!(is_owned(&map.metadata, "trustee-data"));
    assert_eq!(
        map.data.unwrap().into_entries(),
        vec![
            ("kbs-config.toml".to_string(), "config".to_string()),
            ("policy.rego".to_string(), "policy".to_string()),
            ("reference-values.json".to_string(), "{}".to_string()),
        ]
    );
}

#[test]
fn the_service_forwards_to_the_pods() {
    let service = generate_kbs_service(owner(), 80);
    assert!(is_owned(&service.metadata, "kbs-service"));
    assert_eq!(service.ports.len(), 1);
    assert_eq!(service.ports[0].name, "kbs-port");
    assert_eq!(service.ports[0].port, 80);
    assert_eq!(service.ports[0].target_port, 8080);
    assert_eq!(
        service.selector.into_entries(),
        vec![("app".to_string(), "kbs".to_string())]
    );
}

#[test]
fn the_deployment_runs_the_service() {
    let deployment = generate_kbs_deployment(owner(), "registry/kbs:1");
    assert!(is_owned(&deployment.metadata, "trustee-deployment"));
    let labels = vec![("app".to_string(), "kbs".to_string())];
    assert_eq!(deployment.match_labels.into_entries(), labels);
    assert_eq!(deployment.pod_labels.into_entries(), labels);
    let pod = deployment.pod_spec;
    assert!(pod.service_account_name.is_none() && pod.restart_policy.is_none());
    assert_eq!(pod.containers.len(), 1);
    let container = &pod.containers[0];
    assert_eq!(container.name, "kbs");
    assert_eq!(container.image, "registry/kbs:1");
    assert_eq!(
        container.command,
        texts(&["/usr/local/bin/kbs", "--config-file", "/opt/trustee/kbs-config.toml"])
    );
    assert_eq!(container.ports, Some(vec![8080]));
    let mounts: Vec<(&str, &str)> = container
        .volume_mounts
        .iter()
        .map(|mount| (mount.name.as_str(), mount.mount_path.as_str()))
        .collect();
    assert_eq!(
        mounts,
        [
            ("attestation-policy", "/opt/trustee/policies/opa"),
            ("trustee-data", "/opt/trustee"),
            ("resource-dir", "/opt/trustee/kbs-repository/default"),
        ]
    );
    let names: Vec<&str> = pod.volumes.iter().map(|volume| volume.name.as_str()).collect();
    assert_eq!(names, ["attestation-policy", "trustee-data", "resource-dir"]);
    assert!(matches!(
        &pod.volumes[0].source,
        VolumeSource::ConfigMap { name, items: None } if name == "attestation-policy"
    ));
    assert!(matches!(
        &pod.volumes[1].source,
        VolumeSource::ConfigMap { name, items: None } if name == "trustee-data"
    ));
    assert!(matches!(
        &pod.volumes[2].source,
        VolumeSource::EmptyDir { medium } if medium == "Memory"
    ));
}

#[test]
fn an_owner_reference_is_copied_whole() {
    let copy = owner().copy();
    assert_eq!(copy.api_version, "v1alpha1");
    assert_eq!(copy.kind, "ConfidentialCluster");
    assert_eq!(copy.name, "cluster");
    assert_eq!(copy.uid, "0");
    assert_eq!(copy.controller, Some(true));
    assert_eq!(copy.block_owner_deletion, None);
}
