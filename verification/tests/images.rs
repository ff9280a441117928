use operator::controller::{
    controller_error_policy, controller_info, info_if_exists, name_or_default, ControllerError,
    CreateReply, ReconcileAction, RvContextData,
};
use operator::crds::{
    ApprovedImage, ApprovedImageSpec, ConfidentialClusterSpec, MachineConfig, MachineConfigPool,
    MachineConfigPoolConfiguration, MachineConfigPoolSpec, MachineConfigSpec,
};
use operator::error::OperatorError;
use operator::kube_objects::{ObjectMeta, OwnerReference, VolumeSource};
use operator::mock_client::{error_response, mock_reply};
use operator::reference_value::Timestamp;
use operator::reference_values::{
    approval_report, approve_os_image, compute_fresh_pcrs, config_of_pool,
    create_pcrs_config_map, disallow_image, disallowance_report, fetch_pcr_label,
    find_pcr_label, handle_new_image, image_rfc1035, image_rfc1035_with, image_to_pull,
    initial_pool_report, job_reconcile, job_selector, mc_reconcile, store_image_pcrs,
    watch_images, ImageAction, ImageEvent, ImageStep, JobStatus, JobStep, PcrLabel,
};
use operator::rv_store::{ImagePcrs, Pcr};
use operator::trustee::{collect_accepted_values, get_image_pcrs};

const IMAGE: &str = "quay.io/fedora/fedora-coreos:42";

fn unnamed() -> ObjectMeta {
    ObjectMeta {
        name: None,
        labels: None,
        owner_references: None,
    }
}

fn context() -> RvContextData {
    RvContextData {
        owner_reference: OwnerReference {
            api_version: "v1".to_string(),
            kind: "ConfidentialCluster".to_string(),
            name: "cluster".to_string(),
            uid: "0".to_string(),
            controller: None,
            block_owner_deletion: None,
        },
        pcrs_compute_image: "registry/compute:1".to_string(),
    }
}

fn pcr(id: u64, value: &str) -> Pcr {
    Pcr {
        id,
        value: value.to_string(),
        extra: "{}".to_string(),
    }
}

fn approved(reference: &str) -> ApprovedImage {
    ApprovedImage {
        metadata: ObjectMeta::named("image"),
        spec: ApprovedImageSpec {
            reference: reference.to_string(),
        },
    }
}

#[test]
fn image_names_start_with_a_hash() {
    assert_eq!(
        image_rfc1035("quay.io/fedora/fedora-coreos:41").unwrap(),
        "d082be2d13-quay-io-fedora-fedora-coreos-41"
    );
    assert_eq!(
        image_rfc1035(IMAGE).unwrap(),
        "x802586998a-quay-io-fedora-fedora-coreos-42"
    );
    assert_eq!(
        image_rfc1035("quay-io/fedora/fedora-coreos:42").unwrap(),
        "x911a7ac578-quay-io-fedora-fedora-coreos-42"
    );
    assert_eq!(
        image_rfc1035_with("a.b:c/d@e_f-g", &[0, 1, 0xab, 0xcd, 0xef, 9]),
        "x0001abcdef-a-b-c-d-e-f-g"
    );
}

#[test]
fn image_names_are_labels() {
    assert_eq!(
        image_rfc1035("quay.io/fedora/fedora-coreos:Testing_").unwrap(),
        "b6c161ea8c-quay-io-fedora-fedora-coreos-testing-x"
    );
    assert_eq!(image_rfc1035("Quay.io/A").unwrap(), "f7e206e49b-quay-io-a");
    assert_eq!(image_rfc1035("").unwrap(), "da39a3ee5e-x");
    assert_eq!(image_rfc1035("é").unwrap(), "bf15be717a--x");
    for n in 0..200 {
        let name = image_rfc1035(&format!("Registry:5000/A_b/{n}@sha256+x:Z{n}")).unwrap();
        assert!(name.starts_with(|c: char| c.is_ascii_lowercase()));
        assert!(!name.ends_with('-'));
        assert!(name
            .chars()
            .all(|c| c.is_ascii_lowercase() || c.is_ascii_digit() || c == '-'));
    }
}

#[test]
fn only_references_are_pulled() {
    let reference = image_to_pull(IMAGE).unwrap();
    assert_eq!(reference.registry(), "quay.io");
    assert_eq!(reference.repository(), "fedora/fedora-coreos");
    assert_eq!(reference.tag(), Some("42"));
    assert_eq!(reference.digest(), None);
    let digest = "sha256:".to_string() + &"0".repeat(64);
    let reference = image_to_pull(&("registry:5000/a/b@".to_string() + &digest)).unwrap();
    assert_eq!(reference.registry(), "registry:5000");
    assert_eq!(reference.repository(), "a/b");
    assert_eq!(reference.tag(), None);
    assert_eq!(reference.digest(), Some(digest.as_str()));
    for text in ["", "no reference", "quay.io/UPPER", "quay.io/a@sha256:0"] {
        let error = image_to_pull(text).err().unwrap();
        assert!(matches!(error, OperatorError::Reference(_)));
        assert!(error.message().is_none());
    }
}

#[test]
fn a_job_computes_the_registers() {
    let job = compute_fresh_pcrs(context(), IMAGE).unwrap();
    assert_eq!(
        job.metadata.name.as_deref(),
        Some("compute-pcrs-x802586998a-quay-io-fedora-fedora-coreos-42")
    );
    let labels = job.metadata.labels.unwrap();
    assert_eq!(labels.len(), 1);
    assert_eq!(
        format!("{}={}", labels.key(0), labels.value(0)),
        job_selector()
    );
    assert_eq!(job_selector(), "kind=compute-pcrs");
    assert_eq!(job.metadata.owner_references.unwrap()[0].name, "cluster");
    let pod = job.pod_spec;
    assert_eq!(pod.service_account_name.as_deref(), Some("compute-pcrs"));
    assert_eq!(pod.restart_policy.as_deref(), Some("Never"));
    assert_eq!(pod.containers.len(), 1);
    let container = &pod.containers[0];
    assert_eq!(container.name, "compute-pcrs");
    assert_eq!(container.image, "registry/compute:1");
    assert_eq!(container.ports, None);
    assert_eq!(
        container.command,
        [
            "compute-pcrs",
            "--kernels",
            "/image/usr/lib/modules",
            "--esp",
            "/image/usr/lib/bootupd/updates",
            "--efivars",
            "/reference-values/efivars/qemu-ovmf/fedora-42",
            "--mokvars",
            "/reference-values/mok-variables/fedora-42",
            "--image",
            IMAGE,
        ]
    );
    let mounts: Vec<(&str, &str)> = container
        .volume_mounts
        .iter()
        .map(|mount| (mount.name.as_str(), mount.mount_path.as_str()))
        .collect();
    assert_eq!(mounts, [("image", "/image"), ("pcrs", "/pcrs")]);
    assert_eq!(pod.volumes.len(), 2);
    assert_eq!(pod.volumes[0].name, "image");
    assert!(matches!(
        &pod.volumes[0].source,
        VolumeSource::Image { reference } if reference == IMAGE
    ));
    assert_eq!(pod.volumes[1].name, "pcrs");
    match &pod.volumes[1].source {
        VolumeSource::ConfigMap { name, items: Some(items) } => {
            assert_eq!(name, "image-pcrs");
            let file = "image-pcrs.json".to_string();
            assert_eq!(*items, vec![(file.clone(), file)]);
        }
        _ => panic!("a config map with items"),
    }
}

#[test]
fn job_names_are_cut_off() {
    let long = "quay.io/coreos/aaaaaaaaaaaaaaaaaaaaaaaaaaaaaaaaaaaaaaaaaaaaaa@sha256:0";
    let job = compute_fresh_pcrs(context(), long).unwrap();
    let name = job.metadata.name.unwrap();
    assert_eq!(name.len(), 63);
    assert_eq!(
        name,
        "compute-pcrs-x0f630c8b4e-quay-io-coreos-aaaaaaaaaaaaaaaaaaaaaaa"
    );
    for n in 30..45 {
        let job = compute_fresh_pcrs(context(), &("a".repeat(n) + "éé")).unwrap();
        assert!(job.metadata.name.unwrap().len() <= 63);
    }
}

#[test]
fn jobs_of_images_that_differ_late_have_different_names() {
    let base = "quay.io/fedora/fedora-coreos@sha256:0123456789abcdef";
    let a = compute_fresh_pcrs(context(), &(base.to_string() + "0")).unwrap();
    let b = compute_fresh_pcrs(context(), &(base.to_string() + "1")).unwrap();
    let (a, b) = (a.metadata.name.unwrap(), b.metadata.name.unwrap());
    assert_ne!(a, b);
    assert_eq!(a.len(), 63);
    assert_eq!(b.len(), 63);
}

#[test]
fn an_empty_store_is_created_and_read_back() {
    let map = create_pcrs_config_map("{}");
    assert_eq!(map.metadata.name.as_deref(), Some("image-pcrs"));
    assert!(map.metadata.owner_references.is_none());
    assert_eq!(get_image_pcrs(&map).unwrap(), "{}");
    let mut map = map;
    map.data = Some(store_image_pcrs("{\"a\":[]}"));
    assert_eq!(get_image_pcrs(&map).unwrap(), "{\"a\":[]}");
    assert_eq!(map.data.unwrap().len(), 1);
}

#[test]
fn the_label_of_an_image_is_found() {
    let config = "{\"architecture\":\"amd64\",\"os\":\"linux\",\
        \"config\":{\"Labels\":{\"org.coreos.pcrs\":\"{\\\"pcrs\\\":[]}\"}},\
        \"rootfs\":{\"type\":\"layers\",\"diff_ids\":[]},\"history\":[]}";
    assert_eq!(
        fetch_pcr_label(config).unwrap(),
        Some("{\"pcrs\":[]}".to_string())
    );
    let other = config.replace("org.coreos.pcrs", "org.coreos.other");
    assert_eq!(fetch_pcr_label(&other).unwrap(), None);
    assert!(matches!(fetch_pcr_label("no json"), Err(OperatorError::Json(_))));
    let bare = "{\"architecture\":\"amd64\",\"os\":\"linux\",\
        \"rootfs\":{\"type\":\"layers\",\"diff_ids\":[]},\"history\":[]}";
    assert_eq!(fetch_pcr_label(bare).unwrap(), None);
    let labels = [("a", "1"), ("org.coreos.pcrs", "2"), ("b", "3")];
    let labels = labels.map(|(key, text)| (key.to_string(), text.to_string()));
    assert_eq!(find_pcr_label(labels.to_vec()), Some("2".to_string()));
    assert_eq!(find_pcr_label(Vec::new()), None);
}

fn pool(meta: ObjectMeta, config: Option<Option<&str>>) -> MachineConfigPool {
    MachineConfigPool {
        metadata: meta,
        spec: MachineConfigPoolSpec {
            configuration: config.map(|name| MachineConfigPoolConfiguration {
                name: name.map(|name| name.to_string()),
            }),
        },
    }
}

#[test]
fn a_pool_names_its_configuration() {
    let error = config_of_pool(&pool(unnamed(), Some(Some("c")))).err().unwrap();
    assert_eq!(error.message().unwrap(), "MCP changed, but had no name");
    let error = config_of_pool(&pool(ObjectMeta::named("worker"), None)).err().unwrap();
    assert_eq!(
        error.message().unwrap(),
        "MCP worker changed, but had no configuration"
    );
    let error = config_of_pool(&pool(ObjectMeta::named("worker"), Some(None))).err().unwrap();
    assert_eq!(
        error.message().unwrap(),
        "MCP worker changed, but config had no name"
    );
    let name = config_of_pool(&pool(ObjectMeta::named("worker"), Some(Some("c")))).unwrap();
    assert_eq!(name, "c");
}

#[test]
fn the_image_of_a_configuration_is_approved() {
    let mc = MachineConfig {
        spec: MachineConfigSpec { os_image_url: None },
    };
    let error = approve_os_image("rendered", mc).err().unwrap();
    assert_eq!(error.message().unwrap(), "MC rendered existed, but had no osImageUrl");
    let mc = MachineConfig {
        spec: MachineConfigSpec {
            os_image_url: Some(IMAGE.to_string()),
        },
    };
    let image = approve_os_image("rendered", mc).ok().unwrap();
    assert_eq!(
        image.metadata.name.as_deref(),
        Some("x802586998a-quay-io-fedora-fedora-coreos-42")
    );
    assert_eq!(image.spec.reference, IMAGE);
}

#[test]
fn pools_await_changes() {
    assert_eq!(mc_reconcile(Ok(())).unwrap(), ReconcileAction::AwaitChange);
    let error = ControllerError::Operator(OperatorError::NoPoolName);
    assert!(matches!(
        mc_reconcile(Err(error)),
        Err(ControllerError::Operator(OperatorError::NoPoolName))
    ));
    assert_eq!(
        initial_pool_report(&ObjectMeta::named("worker"), Ok(())),
        "Set image of existing MCP worker as approved"
    );
    assert_eq!(
        initial_pool_report(&unnamed(), Err("why")),
        "Failed to set image of existing MCP <no name>: why"
    );
}

#[test]
fn a_job_is_finished_when_it_completed() {
    let error = job_reconcile(&unnamed(), &None).err().unwrap();
    assert_eq!(error.message().unwrap(), "Job changed, but had no name");
    let meta = ObjectMeta::named("job");
    let error = job_reconcile(&meta, &None).err().unwrap();
    assert_eq!(error.message().unwrap(), "Job job changed, but had no status");
    let running = Some(JobStatus {
        completion_time: None,
    });
    match job_reconcile(&meta, &running).unwrap() {
        JobStep::Wait { line, action } => {
            assert_eq!(line, "Job job changed, but had not completed");
            assert_eq!(action, ReconcileAction::Requeue { secs: 300 });
        }
        JobStep::Finish { .. } => panic!("still running"),
    }
    let done = Some(JobStatus {
        completion_time: Timestamp::new(0, 0),
    });
    match job_reconcile(&meta, &done).unwrap() {
        JobStep::Finish { name, action } => {
            assert_eq!(name, "job");
            assert_eq!(action, ReconcileAction::AwaitChange);
        }
        JobStep::Wait { .. } => panic!("completed"),
    }
}

fn accepted(store: &ImagePcrs) -> Vec<(String, Vec<String>)> {
    collect_accepted_values(store).into_entries()
}

fn entry(name: &str, values: &[&str]) -> (String, Vec<String>) {
    (
        name.to_string(),
        values.iter().map(|value| value.to_string()).collect(),
    )
}

#[test]
fn images_are_approved_and_disallowed() {
    let store = ImagePcrs::default();
    let store = match handle_new_image(store, "b", PcrLabel::NotFetched) {
        ImageStep::FetchLabel(store) => store,
        _ => panic!("the label comes first"),
    };
    let store = match handle_new_image(store, "b", PcrLabel::Present(vec![pcr(4, "x")])) {
        ImageStep::Store(store) => store,
        _ => panic!("the label is there"),
    };
    let label = PcrLabel::Present(vec![pcr(4, "y"), pcr(7, "z")]);
    let store = match handle_new_image(store, "a", label) {
        ImageStep::Store(store) => store,
        _ => panic!("the label is there"),
    };
    assert_eq!(
        accepted(&store),
        [
            entry("tpm_pcr4", &["y", "x"]),
            entry("tpm_pcr7", &["z"]),
            entry("tpm_svn", &["1"]),
        ]
    );
    let (store, line) = disallow_image(store, "a");
    assert_eq!(line, None);
    assert_eq!(accepted(&store), [entry("tpm_pcr4", &["x"]), entry("tpm_svn", &["1"])]);
    let (store, line) = disallow_image(store, "a");
    assert_eq!(
        line.as_deref(),
        Some("Image a was to be disallowed, but already was not allowed")
    );
    assert_eq!(accepted(&store), [entry("tpm_pcr4", &["x"]), entry("tpm_svn", &["1"])]);
    assert!(matches!(
        handle_new_image(store, "b", PcrLabel::Present(vec![pcr(4, "new")])),
        ImageStep::Done
    ));
    assert!(matches!(
        handle_new_image(ImagePcrs::default(), "c", PcrLabel::Absent),
        ImageStep::ComputeFresh
    ));
}

#[test]
fn events_lead_to_actions() {
    assert!(matches!(
        watch_images(ImageEvent::Added(approved("i"))),
        ImageAction::Approve { image } if image == "i"
    ));
    assert!(matches!(
        watch_images(ImageEvent::Modified(approved("i"))),
        ImageAction::Approve { image } if image == "i"
    ));
    assert!(matches!(
        watch_images(ImageEvent::Deleted(approved("i"))),
        ImageAction::Disallow { image } if image == "i"
    ));
    assert!(matches!(
        watch_images(ImageEvent::Error("e".to_string())),
        ImageAction::Warn { line } if line == "Error watching ApprovedImages: e"
    ));
    assert!(matches!(watch_images(ImageEvent::Other), ImageAction::Ignore));
    assert!(matches!(
        watch_images(ImageEvent::Unreceived("e".to_string())),
        ImageAction::Warn { line } if line == "Error receiving ApprovedImages event: e"
    ));
    assert!(matches!(watch_images(ImageEvent::End), ImageAction::Stop));
}

#[test]
fn a_watch_goes_on_to_the_end_of_the_stream() {
    let events = vec![
        ImageEvent::Unreceived("e".to_string()),
        ImageEvent::Error("e".to_string()),
        ImageEvent::Added(approved("i")),
        ImageEvent::Other,
        ImageEvent::Deleted(approved("i")),
    ];
    for event in events {
        assert!(!matches!(watch_images(event), ImageAction::Stop));
    }
    assert!(matches!(watch_images(ImageEvent::End), ImageAction::Stop));
}

#[test]
fn outcomes_are_reported() {
    assert_eq!(approval_report("i", Ok(())), "Added PCRs for image i");
    assert_eq!(
        approval_report("i", Err("why")),
        "Failed to add PCRs for image i: why"
    );
    assert_eq!(disallowance_report("i", Ok(())), "Disallowed image i");
    assert_eq!(
        disallowance_report("i", Err("why")),
        "Failed to disallow image i: why"
    );
    assert_eq!(controller_info(Ok("o")), "reconciled o");
    assert_eq!(controller_info(Err("e")), "reconcile failed: e");
    assert_eq!(name_or_default(&ObjectMeta::named("n")), "n");
    assert_eq!(name_or_default(&unnamed()), "<no name>");
}

#[test]
fn failures_are_retried_in_a_minute() {
    for error in [
        ControllerError::Operator(OperatorError::NoJobName),
        ControllerError::Outside("timeout".to_string()),
    ] {
        assert_eq!(
            controller_error_policy(&error),
            ReconcileAction::Requeue { secs: 60 }
        );
    }
}

#[test]
fn objects_that_exist_are_no_error() {
    assert_eq!(
        info_if_exists(CreateReply::Created, "Secret", "id").as_deref(),
        Some("Create Secret id")
    );
    assert_eq!(
        info_if_exists(CreateReply::Rejected { code: 409 }, "Secret", "id").as_deref(),
        Some("Secret id already exists")
    );
    assert_eq!(info_if_exists(CreateReply::Rejected { code: 500 }, "Secret", "id"), None);
    assert_eq!(info_if_exists(CreateReply::Failed, "Secret", "id"), None);
}

#[test]
fn mocked_errors_are_worded() {
    for (code, message, reason) in [
        (409, "resource already exists", "AlreadyExists"),
        (500, "internal server error", "ServerTimeout"),
        (404, "resource not found", "NotFound"),
        (400, "bad request", "BadRequest"),
        (418, "error with status code 418 I'm a teapot", "Unknown"),
        (999, "error with status code 999 <unknown status code>", "Unknown"),
    ] {
        let error = error_response(code);
        assert_eq!(error.status, "Failure");
        assert_eq!(error.message, message);
        assert_eq!(error.reason, reason);
        assert_eq!(error.code, code);
    }
}

#[test]
fn mocked_replies_carry_data_or_an_error() {
    assert_eq!(mock_reply(Ok("{}".to_string())).unwrap(), (200, "{}".to_string()));
    let (code, body) = mock_reply(Err(409)).unwrap();
    assert_eq!(code, 409);
    assert_eq!(
        body,
        "{\"status\":\"Failure\",\"message\":\"resource already exists\",\
         \"reason\":\"AlreadyExists\",\"code\":409}"
    );
}

#[test]
fn a_cluster_starts_without_settings() {
    let spec = ConfidentialClusterSpec::default();
    assert_eq!(spec.trustee_image, "");
    assert_eq!(spec.pcrs_compute_image, "");
    assert_eq!(spec.register_server_image, "");
    assert_eq!(spec.public_trustee_addr, None);
    assert_eq!(spec.trustee_kbs_port, None);
    assert_eq!(spec.register_server_port, None);
}
