//! Laws of approved images, their names, their store and the jobs that compute their PCR values.
use crate::controller::{ControllerError, ReconcileAction, RvContextData};
use crate::crds::{ApprovedImage, MachineConfig, MachineConfigPool};
use crate::error::OperatorError;
use crate::kube_objects::{ConfigMap, Job, ObjectMeta, PodSpec, VolumeSource};
use crate::laws::basics::{is_only_named, lists_are_seen_whole, same_owner};
use crate::ordered::{key_at, TextMap};
use crate::outside::{hex_of, labels_of_config, reference_of, sha1_of};
use crate::reference_values::{
    approval_report, approve_image_with, approve_os_image, build_compute_pcrs_pod_spec,
    compute_fresh_pcrs, compute_fresh_pcrs_with, config_of_pool, create_pcrs_config_map,
    disallow_image, disallowance_report, fetch_pcr_label, find_pcr_label, handle_new_image,
    image_names_are_rfc1035, image_rfc1035, image_rfc1035_with, image_to_pull,
    initial_pool_report, job_name_is_ascii, job_reconcile, job_selector, led, mc_reconcile,
    replaced, store_image_pcrs, watch_images, ImageAction, ImageEvent, ImageStep, JobStatus,
    JobStep, PcrLabel,
};
use crate::rv_store::ImagePcrs;
use crate::text::ascii_cuts_cleanly;
use crate::trustee::get_image_pcrs;
use vstd::prelude::*;
use vstd::utf8::*;

verus! {

/// The number that a hexadecimal digit stands for.
pub open spec fn nibble_of(c: char) -> int {
    if '0' <= c <= '9' {
        c as int - '0' as int
    } else {
        c as int - 'a' as int + 10
    }
}

/// How many letters a name of an image has in front of its hash: one if the hash starts with a
/// digit, as a name starts with a letter.
pub open spec fn letters_in_front(digest: Seq<u8>) -> int {
    if digest[0] < 0xa0 {
        1
    } else {
        0
    }
}

/// The first five bytes of the digest can be read back from the name of an image.
pub proof fn names_spell_the_digest(image: &str, digest: &[u8], name: String, i: int)
    requires
        digest@.len() >= 5,
        call_ensures(image_rfc1035_with, (image, digest), name),
        0 <= i < 5,
    ensures
        ({
            let at = letters_in_front(digest@) + 2 * i;
            &&& name@.len() > letters_in_front(digest@) + 11
            &&& letters_in_front(digest@) == 1 ==> name@[0] == 'x'
            &&& name@[letters_in_front(digest@) + 10] == '-'
            &&& digest@[i] == nibble_of(name@[at]) * 16 + nibble_of(name@[at + 1])
        }),
{
    shape_of_name(image@, digest@);
    let hash = hex_of(digest@);
    let n = letters_in_front(digest@);
    assert(name@[n + 2 * i] == hash[2 * i]);
    assert(name@[n + (2 * i + 1)] == hash[2 * i + 1]);
    hash_spells(digest@, i);
}

/// Two digits of a hash stand for their byte.
proof fn hash_spells(digest: Seq<u8>, i: int)
    requires
        0 <= i < digest.len(),
    ensures
        digest[i] == nibble_of(hex_of(digest)[2 * i]) * 16 + nibble_of(hex_of(digest)[2 * i + 1]),
{
    let d = digest[i] as int;
    assert((2 * i) % 2 == 0 && (2 * i) / 2 == i && (2 * i + 1) % 2 == 1 && (2 * i + 1) / 2 == i);
    assert(hex_of(digest)[2 * i] == crate::outside::hex_digit(d / 16));
    assert(hex_of(digest)[2 * i + 1] == crate::outside::hex_digit(d % 16));
    assert(0 <= d / 16 < 16 && 0 <= d % 16 < 16 && d == d / 16 * 16 + d % 16);
}

/// Where the parts of a name stand.
proof fn shape_of_name(image: Seq<char>, digest: Seq<u8>)
    requires
        digest.len() >= 5,
    ensures
        ({
            let name = crate::reference_values::image_name(image, digest);
            let n = letters_in_front(digest);
            let hash = hex_of(digest);
            &&& name.len() == n + 11 + image.len() || name.len() == n + 12 + image.len()
            &&& name.len() > n + 11
            &&& n == 1 ==> name[0] == 'x'
            &&& forall|i: int| 0 <= i < 10 ==> name[n + i] == #[trigger] hash[i]
            &&& name[n + 10] == '-'
            &&& forall|k: int|
                0 <= k < image.len() ==> name[n + 11 + k] == #[trigger] replaced(image)[k]
            &&& name[n + 10 + image.len()] == '-' ==> name.len() == n + 12 + image.len()
                && name.last() == 'x'
            &&& name[n + 10 + image.len()] != '-' ==> name.len() == n + 11 + image.len()
        }),
{
    reveal_strlit("-");
    reveal_strlit("x");
    let hash = hex_of(digest);
    let short = hash.take(10);
    assert(short[0] == hash[0]);
    assert(hash[0] == crate::outside::hex_digit(digest[0] as int / 16));
    let front = led(short);
    let n = letters_in_front(digest);
    assert(front.len() == n + 10);
    let whole = front + "-"@ + replaced(image);
    assert(whole.len() == n + 11 + image.len());
    let name = crate::reference_values::image_name(image, digest);
    assert forall|i: int| 0 <= i < 10 implies name[n + i] == #[trigger] hash[i] by {
        assert(short[i] == hash[i]);
        assert(front[n + i] == short[i]);
        assert(whole[n + i] == front[n + i]);
    }
    assert(whole[n + 10] == '-');
    assert forall|k: int| 0 <= k < image.len() implies name[n + 11 + k] == #[trigger] replaced(
        image,
    )[k] by {
        assert(whole[n + 11 + k] == replaced(image)[k]);
    }
    assert(name[n + 10 + image.len()] == whole.last());
}

/// Behind the hash and a dash, a name has a character for each of the image, at the same place:
/// lower case letters, digits and dashes as they are, other letters in lower case, and a dash for
/// everything else.
pub proof fn names_follow_the_image(image: &str, digest: &[u8], name: String, k: int)
    requires
        digest@.len() >= 5,
        call_ensures(image_rfc1035_with, (image, digest), name),
        0 <= k < image@.len(),
    ensures
        ({
            let c = image@[k];
            let d = name@[letters_in_front(digest@) + 11 + k];
            &&& 'a' <= c <= 'z' || '0' <= c <= '9' || c == '-' ==> d == c
            &&& 'A' <= c <= 'Z' ==> d as int == c as int + 32
            &&& !('a' <= c <= 'z' || '0' <= c <= '9' || 'A' <= c <= 'Z') ==> d == '-'
        }),
{
    shape_of_name(image@, digest@);
    let n = letters_in_front(digest@);
    assert(name@[n + 11 + k] == replaced(image@)[k]);
}

/// Nothing follows the characters of the image in a name, except one letter if the name would end
/// with a dash.
pub proof fn names_end_with_the_image(image: &str, digest: &[u8], name: String)
    requires
        digest@.len() >= 5,
        call_ensures(image_rfc1035_with, (image, digest), name),
    ensures
        ({
            let end = letters_in_front(digest@) + 11 + image@.len();
            &&& name@[end - 1] != '-' ==> name@.len() == end
            &&& name@[end - 1] == '-' ==> name@.len() == end + 1 && name@[end] == 'x'
        }),
{
    shape_of_name(image@, digest@);
}

/// A name starts with a letter, ends with a letter or a digit, and has only lower case letters,
/// digits and dashes.
pub proof fn names_are_labels(image: &str, digest: &[u8], name: String)
    requires
        digest@.len() >= 5,
        call_ensures(image_rfc1035_with, (image, digest), name),
    ensures
        name@.len() > 0,
        'a' <= name@[0] <= 'z',
        name@.last() != '-',
        forall|i: int|
            0 <= i < name@.len() ==> 'a' <= #[trigger] name@[i] <= 'z' || '0' <= name@[i] <= '9'
                || name@[i] == '-',
{
    image_names_are_rfc1035(image@, digest@);
}

/// The digest in the name of an image is the SHA-1 digest of the image itself. Only OpenSSL can
/// fail.
pub proof fn names_have_the_digest_of_the_image(
    image: &str,
    name: Result<String, OperatorError>,
    digest: &[u8],
    with: String,
)
    requires
        call_ensures(image_rfc1035, (image,), name),
        digest@ == sha1_of(encode_utf8(image@)),
        call_ensures(image_rfc1035_with, (image, digest), with),
    ensures
        name is Ok ==> name->Ok_0@ == with@ && digest@.len() == 20,
        name is Err ==> name->Err_0 is Openssl,
{
}

/// The name of a job is the command, a dash and the name of its image, cut off after 63 characters.
/// The job has the label that is watched, and belongs to the owner that the context names and to no
/// other.
pub proof fn jobs_belong_to_their_owner(
    ctx: RvContextData,
    boot_image: &str,
    digest: &[u8],
    job: Job,
    image_name: String,
)
    requires
        digest@.len() >= 5,
        call_ensures(compute_fresh_pcrs_with, (ctx, boot_image, digest), job),
        call_ensures(image_rfc1035_with, (boot_image, digest), image_name),
    ensures
        ({
            let full = "compute-pcrs"@ + "-"@ + image_name@;
            &&& job.metadata.name is Some
            &&& job.metadata.name->0@ == if full.len() <= 63 { full } else { full.take(63) }
        }),
        job.metadata.labels is Some,
        job.metadata.labels->0@ == map!["kind"@ => "compute-pcrs"@],
        job.metadata.owner_references is Some,
        job.metadata.owner_references->0@.len() == 1,
        same_owner(job.metadata.owner_references->0@[0], ctx.owner_reference),
        computes(job.pod_spec, boot_image@, ctx.pcrs_compute_image@),
{
    let full = "compute-pcrs"@ + "-"@ + image_name@;
    job_name_is_ascii(boot_image@, digest@);
    ascii_cuts_cleanly(full, 63);
    let meta = job.deep_view().metadata;
    assert(meta.labels == Some(map!["kind"@ => "compute-pcrs"@]));
    let owners = job.metadata.owner_references->0;
    lists_are_seen_whole(owners);
    assert(owners.deep_view()[0] == ctx.owner_reference.deep_view());
    pod_is_seen_whole(job.pod_spec, boot_image@, ctx.pcrs_compute_image@);
}

/// The job of an image is the one with the SHA-1 digest of the image. Only OpenSSL can fail.
pub proof fn jobs_have_the_digest_of_the_image(
    ctx: RvContextData,
    boot_image: &str,
    job: Result<Job, OperatorError>,
    digest: &[u8],
    with: Job,
)
    requires
        call_ensures(compute_fresh_pcrs, (ctx, boot_image), job),
        digest@ == sha1_of(encode_utf8(boot_image@)),
        call_ensures(compute_fresh_pcrs_with, (ctx, boot_image, digest), with),
    ensures
        job is Err ==> job->Err_0 is Openssl,
        job is Ok ==> {
            let meta = job->Ok_0.metadata;
            &&& meta.name is Some && with.metadata.name is Some
            &&& meta.name->0@ == with.metadata.name->0@
            &&& meta.labels is Some
            &&& meta.labels->0@ == map!["kind"@ => "compute-pcrs"@]
            &&& meta.owner_references is Some
            &&& meta.owner_references->0@.len() == 1
            &&& same_owner(meta.owner_references->0@[0], ctx.owner_reference)
            &&& computes(job->Ok_0.pod_spec, boot_image@, ctx.pcrs_compute_image@)
        },
{
    if job is Ok {
        let meta = job->Ok_0.metadata;
        let owners = meta.owner_references->0;
        assert(job->Ok_0.deep_view().metadata.owner_references is Some);
        assert(meta.deep_view().labels == Some(map!["kind"@ => "compute-pcrs"@]));
        assert(meta.deep_view().name == with.metadata.deep_view().name);
        lists_are_seen_whole(owners);
        assert(owners.deep_view()[0] == ctx.owner_reference.deep_view());
        pod_is_seen_whole(job->Ok_0.pod_spec, boot_image@, ctx.pcrs_compute_image@);
    }
}

/// The pod computes the PCR values of a boot image: it runs the command from the given image, finds
/// the boot image mounted where the command looks for it, and sees the store.
pub open spec fn computes(pod: PodSpec, boot_image: Seq<char>, compute_image: Seq<char>) -> bool {
    let container = pod.containers@[0];
    let command = container.command@;
    &&& pod.service_account_name is Some && pod.service_account_name->0@ == "compute-pcrs"@
    &&& pod.restart_policy is Some && pod.restart_policy->0@ == "Never"@
    &&& pod.containers@.len() == 1
    &&& container.name@ == "compute-pcrs"@
    &&& container.image@ == compute_image
    &&& container.ports is None
    &&& command.len() == 11
    &&& command[0]@ == "compute-pcrs"@
    &&& command[1]@ == "--"@ + "kernels"@
    &&& command[2]@ == "/"@ + "image"@ + "/"@ + "usr/lib/modules"@
    &&& command[3]@ == "--"@ + "esp"@
    &&& command[4]@ == "/"@ + "image"@ + "/"@ + "usr/lib/bootupd/updates"@
    &&& command[5]@ == "--"@ + "efivars"@
    &&& command[6]@ == "/reference-values/efivars/qemu-ovmf/fedora-42"@
    &&& command[7]@ == "--"@ + "mokvars"@
    &&& command[8]@ == "/reference-values/mok-variables/fedora-42"@
    &&& command[9]@ == "--"@ + "image"@
    &&& command[10]@ == boot_image
    &&& container.volume_mounts@.len() == 2
    &&& container.volume_mounts@[0].name@ == "image"@
    &&& container.volume_mounts@[0].mount_path@ == "/"@ + "image"@
    &&& container.volume_mounts@[1].name@ == "pcrs"@
    &&& container.volume_mounts@[1].mount_path@ == "/"@ + "pcrs"@
    &&& pod.volumes@.len() == 2
    &&& pod.volumes@[0].name@ == "image"@
    &&& pod.volumes@[0].source matches VolumeSource::Image { reference } && reference@
        == boot_image
    &&& pod.volumes@[1].name@ == "pcrs"@
    &&& pod.volumes@[1].source matches VolumeSource::ConfigMap { name, items } && name@
        == "image-pcrs"@ && items is Some && items->0@.len() == 1 && items->0@[0].0@
        == "image-pcrs.json"@ && items->0@[0].1@ == "image-pcrs.json"@
}

/// A pod that is seen as the one that computes PCR values does so.
#[verifier::spinoff_prover]
proof fn pod_is_seen_whole(pod: PodSpec, boot_image: Seq<char>, compute_image: Seq<char>)
    requires
        pod.deep_view() == crate::reference_values::compute_pcrs_pod_spec(
            boot_image,
            compute_image,
        ),
    ensures
        computes(pod, boot_image, compute_image),
{
    lists_are_seen_whole(pod.containers);
    lists_are_seen_whole(pod.volumes);
    let container = pod.containers@[0];
    assert(pod.containers.deep_view()[0] == container.deep_view());
    lists_are_seen_whole(container.command);
    let command = container.command@;
    assert(container.deep_view().command.len() == 11);
    assert forall|i: int| 0 <= i < 11 implies (#[trigger] command[i])@
        == container.deep_view().command[i] by {
        assert(container.command.deep_view()[i] == command[i].deep_view());
    }
    lists_are_seen_whole(container.volume_mounts);
    assert(container.deep_view().volume_mounts.len() == 2);
    assert(container.volume_mounts.deep_view()[0] == container.volume_mounts@[0].deep_view());
    assert(container.volume_mounts.deep_view()[1] == container.volume_mounts@[1].deep_view());
    assert(pod.volumes.deep_view()[0] == pod.volumes@[0].deep_view());
    assert(pod.volumes.deep_view()[1] == pod.volumes@[1].deep_view());
    if let VolumeSource::ConfigMap { name, items } = pod.volumes@[1].source {
        lists_are_seen_whole(items->0);
        assert(items->0.deep_view()[0] == items->0@[0].deep_view());
    }
}

/// The pod that is made computes the PCR values of the given boot image with the given image.
pub proof fn the_pod_computes_its_image(boot_image: &str, compute_image: &str, pod: PodSpec)
    requires
        call_ensures(build_compute_pcrs_pod_spec, (boot_image, compute_image), pod),
    ensures
        computes(pod, boot_image@, compute_image@),
{
    pod_is_seen_whole(pod, boot_image@, compute_image@);
}

/// A store is kept as the only file of its config map, whole, and is read back as it was stored.
pub proof fn stores_are_read_back(
    json: &str,
    map: ConfigMap,
    text: Result<&str, OperatorError>,
    data: TextMap<String>,
    other: ConfigMap,
    other_text: Result<&str, OperatorError>,
)
    requires
        call_ensures(create_pcrs_config_map, (json,), map),
        call_ensures(get_image_pcrs, (&map,), text),
        call_ensures(store_image_pcrs, (json,), data),
        other.data == Some(data),
        call_ensures(get_image_pcrs, (&other,), other_text),
    ensures
        is_only_named(map.metadata, "image-pcrs"@),
        text is Ok && text->Ok_0@ == json@,
        other_text is Ok && other_text->Ok_0@ == json@,
        data@ == map!["image-pcrs.json"@ => json@],
        map.data is Some && map.data->0@ == data@,
{
    assert(map.deep_view().data == Some(map!["image-pcrs.json"@ => json@]));
    assert(map.deep_view().metadata.name == Some("image-pcrs"@));
}

/// The image that is pulled is the one that the text refers to, and nothing else is.
pub proof fn the_image_itself_is_pulled(
    text: &str,
    reference: Result<oci_client::Reference, OperatorError>,
)
    requires
        call_ensures(image_to_pull, (text,), reference),
    ensures
        reference is Ok ==> reference_of(text@) == Some(reference->Ok_0),
        reference is Err ==> reference_of(text@) is None && reference->Err_0 is Reference,
        text@.len() == 0 ==> reference is Err,
{
}

/// The label with the PCR values is the text of the label of that name, whole, if there is one.
pub proof fn the_label_is_that_of_its_name(
    labels: Vec<(String, String)>,
    label: Option<String>,
    i: int,
)
    requires
        call_ensures(find_pcr_label, (labels,), label),
        forall|j: int, k: int|
            0 <= j < labels@.len() && 0 <= k < labels@.len() && (#[trigger] labels@[j]).0@ == (
            #[trigger] labels@[k]).0@ ==> j == k,
    ensures
        0 <= i < labels@.len() && labels@[i].0@ == "org.coreos.pcrs"@ ==> label is Some
            && label->0@ == labels@[i].1@,
        label is None <==> forall|j: int|
            0 <= j < labels@.len() ==> (#[trigger] labels@[j]).0@ != "org.coreos.pcrs"@,
{
    lists_are_seen_whole(labels);
    let all = labels.deep_view();
    assert forall|j: int| 0 <= j < labels@.len() implies all[j] == (
        (#[trigger] labels@[j]).0@,
        labels@[j].1@,
    ) by {
        assert(all[j] == labels@[j].deep_view());
    }
    if label is Some {
        let k = choose|k: int| 0 <= k < all.len() && all[k] == ("org.coreos.pcrs"@, label->0@);
        assert(labels@[k].0@ == "org.coreos.pcrs"@);
        if 0 <= i < labels@.len() && labels@[i].0@ == "org.coreos.pcrs"@ {
            assert(i == k);
        }
    } else {
        assert forall|j: int| 0 <= j < labels@.len() implies (#[trigger] labels@[j]).0@
            != "org.coreos.pcrs"@ by {
            assert(key_at(all, all[j].0, j));
        }
    }
}

/// The label of an image is that of its configuration: the text of the label of that name, if the
/// configuration has one, and an error if it is no configuration.
pub proof fn the_label_is_that_of_the_configuration(
    config: &str,
    label: Result<Option<String>, OperatorError>,
)
    requires
        call_ensures(fetch_pcr_label, (config,), label),
    ensures
        label is Err <==> labels_of_config(config@) is None,
        label is Err ==> label->Err_0 is Json,
        label is Ok ==> (label->Ok_0 is Some <==> labels_of_config(config@)->0 is Some
            && labels_of_config(config@)->0->0.contains_key("org.coreos.pcrs"@)),
        label is Ok && label->Ok_0 is Some ==> label->Ok_0->0@ == labels_of_config(
            config@,
        )->0->0["org.coreos.pcrs"@],
{
}

/// The configuration of a pool is found by its name. What is missing on the way is named.
pub proof fn pools_lead_to_their_configuration(
    mcp: MachineConfigPool,
    name: Result<String, OperatorError>,
)
    requires
        call_ensures(config_of_pool, (&mcp,), name),
    ensures
        mcp.metadata.name is None <==> name is Err && name->Err_0 is NoPoolName,
        mcp.metadata.name is Some && mcp.spec.configuration is None ==> (name matches Err(
            OperatorError::NoPoolConfiguration { pool },
        ) && pool@ == mcp.metadata.name->0@),
        mcp.metadata.name is Some && mcp.spec.configuration is Some
            && mcp.spec.configuration->0.name is None ==> (name matches Err(
            OperatorError::NoPoolConfigurationName { pool },
        ) && pool@ == mcp.metadata.name->0@),
        mcp.metadata.name is Some && mcp.spec.configuration is Some
            && mcp.spec.configuration->0.name is Some ==> name is Ok && name->Ok_0@
            == mcp.spec.configuration->0.name->0@,
{
}

/// The approval of an image refers to that very image, whatever its length, and has the name of
/// that image.
pub proof fn approvals_refer_to_their_image(
    url: String,
    digest: &[u8],
    image: ApprovedImage,
    text: &str,
    name: String,
)
    requires
        digest@.len() >= 5,
        call_ensures(approve_image_with, (url, digest), image),
        text@ == url@,
        call_ensures(image_rfc1035_with, (text, digest), name),
    ensures
        image.spec.reference@ == url@,
        is_only_named(image.metadata, name@),
{
    assert(image.deep_view().reference == url@);
    assert(image.deep_view().metadata.name == Some(name@));
}

/// The approval that comes of a machine config leads to the approval of exactly the image that the
/// machine config has, once its event arrives, and its withdrawal to the image being disallowed.
pub proof fn machine_configs_lead_to_their_image(
    config_name: &str,
    mc: MachineConfig,
    image: Result<ApprovedImage, OperatorError>,
    added: ImageAction,
    modified: ImageAction,
    deleted: ImageAction,
)
    requires
        call_ensures(approve_os_image, (config_name, mc), image),
        image is Ok,
        call_ensures(watch_images, (ImageEvent::Added(image->Ok_0),), added),
        call_ensures(watch_images, (ImageEvent::Modified(image->Ok_0),), modified),
        call_ensures(watch_images, (ImageEvent::Deleted(image->Ok_0),), deleted),
    ensures
        mc.spec.os_image_url is Some,
        image->Ok_0.spec.reference@ == mc.spec.os_image_url->0@,
        added matches ImageAction::Approve { image } && image@ == mc.spec.os_image_url->0@,
        modified matches ImageAction::Approve { image } && image@ == mc.spec.os_image_url->0@,
        deleted matches ImageAction::Disallow { image } && image@ == mc.spec.os_image_url->0@,
{
    assert(image->Ok_0.deep_view().reference == mc.spec.os_image_url->0@);
}

/// The approval that comes of a machine config has the name of the image with the SHA-1 digest of
/// the image in it.
pub proof fn machine_configs_name_their_image(
    config_name: &str,
    mc: MachineConfig,
    image: Result<ApprovedImage, OperatorError>,
    text: &str,
    digest: &[u8],
    name: String,
)
    requires
        call_ensures(approve_os_image, (config_name, mc), image),
        image is Ok,
        text@ == mc.spec.os_image_url->0@,
        digest@ == sha1_of(encode_utf8(text@)),
        call_ensures(image_rfc1035_with, (text, digest), name),
    ensures
        is_only_named(image->Ok_0.metadata, name@),
{
    assert(image->Ok_0.deep_view().metadata.name == Some(name@));
}

/// A machine config without an image is named in the error.
pub proof fn machine_configs_need_an_image(
    config_name: &str,
    mc: MachineConfig,
    image: Result<ApprovedImage, OperatorError>,
)
    requires
        call_ensures(approve_os_image, (config_name, mc), image),
    ensures
        mc.spec.os_image_url is None ==> (image matches Err(OperatorError::NoImageUrl { config })
            && config@ == config_name@),
        mc.spec.os_image_url is Some ==> image is Ok || image->Err_0 is Openssl,
{
}

/// An event leads to what it reports: approvals that come or change are followed, withdrawals too,
/// errors are told in full, and only the end of the stream ends the watch.
pub proof fn events_lead_to_what_they_report(event: ImageEvent, action: ImageAction)
    requires
        call_ensures(watch_images, (event,), action),
    ensures
        event matches ImageEvent::Added(s) ==> (action matches ImageAction::Approve { image }
            && image@ == s.spec.reference@),
        event matches ImageEvent::Modified(s) ==> (action matches ImageAction::Approve { image }
            && image@ == s.spec.reference@),
        event matches ImageEvent::Deleted(s) ==> (action matches ImageAction::Disallow { image }
            && image@ == s.spec.reference@),
        event matches ImageEvent::Error(e) ==> (action matches ImageAction::Warn { line } && line@
            == "Error watching ApprovedImages: "@ + e@),
        event matches ImageEvent::Unreceived(e) ==> (action matches ImageAction::Warn { line }
            && line@ == "Error receiving ApprovedImages event: "@ + e@),
        event is Other ==> action is Ignore,
        event is End <==> action is Stop,
{
}

/// A pool whose image is approved is looked at again when it changes, and an error is handed on.
pub proof fn pools_await_changes(
    outcome: Result<(), ControllerError>,
    action: Result<ReconcileAction, ControllerError>,
)
    requires
        call_ensures(mc_reconcile, (outcome,), action),
    ensures
        outcome is Ok ==> action is Ok && action->Ok_0 == ReconcileAction::AwaitChange,
        outcome is Err ==> action is Err && action->Err_0 == outcome->Err_0,
{
}

/// Reports name the object that they are about and the error, both in full.
pub proof fn reports_are_whole(
    meta: ObjectMeta,
    image: &str,
    outcome: Result<(), &str>,
    of_pool: String,
    of_approval: String,
    of_disallowance: String,
)
    requires
        call_ensures(initial_pool_report, (&meta, outcome), of_pool),
        call_ensures(approval_report, (image, outcome), of_approval),
        call_ensures(disallowance_report, (image, outcome), of_disallowance),
    ensures
        ({
            let name = if meta.name is Some { meta.name->0@ } else { "<no name>"@ };
            &&& outcome is Ok ==> of_pool@ == "Set image of existing MCP "@ + name
                + " as approved"@
            &&& outcome is Err ==> of_pool@ == "Failed to set image of existing MCP "@ + name
                + ": "@ + outcome->Err_0@
        }),
        outcome is Ok ==> of_approval@ == "Added PCRs for image "@ + image@,
        outcome is Err ==> of_approval@ == "Failed to add PCRs for image "@ + image@ + ": "@
            + outcome->Err_0@,
        outcome is Ok ==> of_disallowance@ == "Disallowed image "@ + image@,
        outcome is Err ==> of_disallowance@ == "Failed to disallow image "@ + image@ + ": "@
            + outcome->Err_0@,
{
}

/// A job is finished exactly once it has completed. One that has not is looked at again in five
/// minutes. The job is named in full.
pub proof fn jobs_are_finished_once_completed(
    meta: ObjectMeta,
    status: Option<JobStatus>,
    step: Result<JobStep, OperatorError>,
)
    requires
        call_ensures(job_reconcile, (&meta, &status), step),
    ensures
        meta.name is None <==> step is Err && step->Err_0 is NoJobName,
        meta.name is Some && status is None ==> (step matches Err(
            OperatorError::NoJobStatus { job },
        ) && job@ == meta.name->0@),
        meta.name is Some && status is Some && status->0.completion_time is None ==> (
        step matches Ok(JobStep::Wait { line, action }) && line@ == "Job "@ + meta.name->0@
            + " changed, but had not completed"@ && action == (ReconcileAction::Requeue {
            secs: 300,
        })),
        meta.name is Some && status is Some && status->0.completion_time is Some ==> (
        step matches Ok(JobStep::Finish { name, action }) && name@ == meta.name->0@ && action
            == ReconcileAction::AwaitChange),
{
}

/// The selector of jobs is a label and its value, and the jobs that are made have that label.
pub proof fn selected_jobs_are_those_that_are_made(
    selector: String,
    ctx: RvContextData,
    boot_image: &str,
    digest: &[u8],
    job: Job,
)
    requires
        call_ensures(job_selector, (), selector),
        call_ensures(compute_fresh_pcrs_with, (ctx, boot_image, digest), job),
    ensures
        exists|key: Seq<char>, value: Seq<char>|
            {
                &&& selector@ == #[trigger] (key + "="@ + value)
                &&& key == "kind"@ && value == "compute-pcrs"@
                &&& job.metadata.labels->0@.contains_pair(key, value)
            },
{
    assert(job.deep_view().metadata.labels == Some(map!["kind"@ => "compute-pcrs"@]));
    assert(selector@ == "kind"@ + "="@ + "compute-pcrs"@);
}

/// No image is in a new store.
pub proof fn new_stores_are_empty(store: ImagePcrs, image: Seq<char>)
    requires
        call_ensures(ImagePcrs::default, (), store),
    ensures
        !store.0@.contains_key(image),
{
}

/// A new image is stored with exactly the records of its label, and every other image stays as it
/// is. An image that is stored already stays as it is.
pub proof fn approving_stores_the_records_of_the_label(
    store: ImagePcrs,
    image: &str,
    label: PcrLabel,
    step: ImageStep,
    other: Seq<char>,
)
    requires
        call_ensures(handle_new_image, (store, image, label), step),
    ensures
        step is Done <==> store.0@.contains_key(image@),
        !store.0@.contains_key(image@) && label is NotFetched ==> (step matches
            ImageStep::FetchLabel(s) && s.0@ == store.0@),
        !store.0@.contains_key(image@) && label is Absent ==> step is ComputeFresh,
        !store.0@.contains_key(image@) && label is Present ==> (step matches ImageStep::Store(s)
            && s.0@.contains_key(image@) && s.0@[image@] == label->Present_0.deep_view() && (other
            != image@ ==> (s.0@.contains_key(other) <==> store.0@.contains_key(other)) && (
        store.0@.contains_key(other) ==> s.0@[other] == store.0@[other]))),
{
}

/// A disallowed image is not in the store any more, and every other image stays as it is. That the
/// image was not there is said.
pub proof fn disallowing_removes_only_the_image(
    store: ImagePcrs,
    image: &str,
    r: (ImagePcrs, Option<String>),
    other: Seq<char>,
)
    requires
        call_ensures(disallow_image, (store, image), r),
    ensures
        !r.0.0@.contains_key(image@),
        other != image@ ==> (r.0.0@.contains_key(other) <==> store.0@.contains_key(other)) && (
        store.0@.contains_key(other) ==> r.0.0@[other] == store.0@[other]),
        r.1 is None <==> store.0@.contains_key(image@),
        r.1 is Some ==> r.1->0@ == "Image "@ + image@
            + " was to be disallowed, but already was not allowed"@,
{
}

} // verus!
