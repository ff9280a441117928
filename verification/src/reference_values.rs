//! Approved images and the PCR values that are recorded or computed of them.
use crate::controller::{
    display_name, name_or_default, ControllerError, ReconcileAction, RvContextData,
};
use crate::crds::{
    ApprovedImage, ApprovedImageSpec, ApprovedImageView, MachineConfig, MachineConfigPool,
};
use crate::error::OperatorError;
use crate::kube_objects::{
    has_volume, mounts_are_backed, named, one_entry, ConfigMap, ConfigMapView, Container,
    ContainerView, Job, JobView, ObjectMeta, ObjectMetaView, OwnerReference, OwnerReferenceView,
    PodSpec, PodSpecView, Volume, VolumeMount, VolumeMountView, VolumeSource, VolumeSourceView,
    VolumeView,
};
use crate::ordered::{key_at, to_map, TextMap};
use crate::outside::{
    are_entries_of, config_labels, hex_digit, hex_of, hex_text, labels_of_config, parse_reference,
    reference_of, sha1_digest, sha1_of,
};
use crate::reference_value::Timestamp;
use crate::rv_store::{ImagePcrs, Pcr, PcrView, PCR_CONFIG_FILE, PCR_CONFIG_MAP};
use crate::text::{
    around, ascii_cuts_cleanly, compare_text, cut, cut_is_short, truncate, Side,
};
use vstd::prelude::*;
use vstd::string::*;
use vstd::utf8::*;

verus! {

/// The label by which the jobs that compute PCR values are told from others.
pub const JOB_LABEL_KEY: &'static str = "kind";

/// The command that computes PCR values.
pub const PCR_COMMAND_NAME: &'static str = "compute-pcrs";

/// The label of an image that holds its PCR values.
pub const PCR_LABEL: &'static str = "org.coreos.pcrs";

/// A lower case letter of the Latin alphabet.
pub open spec fn is_lower(c: char) -> bool {
    'a' <= c <= 'z'
}

/// A lower case letter or a digit.
pub open spec fn is_lower_or_digit(c: char) -> bool {
    is_lower(c) || '0' <= c <= '9'
}

/// A label in the sense of RFC 1035, in lower case, that may be too long: it starts with a letter,
/// ends with a letter or a digit, and has only letters, digits and dashes.
pub open spec fn is_rfc1035_but_for_length(name: Seq<char>) -> bool {
    &&& name.len() > 0
    &&& is_lower(name[0])
    &&& is_lower_or_digit(name.last())
    &&& forall|i: int|
        0 <= i < name.len() ==> is_lower_or_digit(#[trigger] name[i]) || name[i] == '-'
}

/// A character of an image name as it occurs in the names of objects: letters in lower case, and a
/// dash for each character that may not occur.
pub open spec fn replacement(c: char) -> char {
    if is_lower_or_digit(c) {
        c
    } else if 'A' <= c <= 'Z' {
        (c as int + 32) as char
    } else {
        '-'
    }
}

/// An image name with the characters that may occur.
pub open spec fn replaced(image: Seq<char>) -> Seq<char> {
    Seq::new(image.len(), |i: int| replacement(image[i]))
}

/// Replaces one character.
fn replace_character(c: char) -> (r: char)
    ensures
        r == replacement(c),
{
    if ('a' <= c && c <= 'z') || ('0' <= c && c <= '9') {
        c
    } else if 'A' <= c && c <= 'Z' {
        (c as u8 + 32) as char
    } else {
        '-'
    }
}

/// Replaces the characters that may not occur.
fn replace_characters(image: &str) -> (text: String)
    ensures
        text@ == replaced(image@),
{
    broadcast use group_string_axioms;

    let mut text = String::new();
    let mut chars = image.chars();
    let ghost mut i: int = 0;
    loop
        invariant
            0 <= i <= image@.len(),
            text@ =~= replaced(image@).take(i),
            vstd::std_specs::iter::IteratorSpec::remaining(&chars) == image@.skip(i),
        decreases image@.len() - i,
    {
        match chars.next() {
            None => {
                assert(replaced(image@).take(i) =~= replaced(image@));
                return text;
            },
            Some(c) => {
                assert(c == image@[i]);
                text.push(replace_character(c));
                proof {
                    assert(replaced(image@).take(i + 1) =~= replaced(image@).take(i).push(
                        replacement(image@[i]),
                    ));
                    i = i + 1;
                }
            },
        }
    }
}

/// A text that starts with a letter: one that starts with a digit gets a letter in front. No
/// hexadecimal digit is that letter.
pub open spec fn led(text: Seq<char>) -> Seq<char> {
    if '0' <= text[0] <= '9' {
        "x"@ + text
    } else {
        text
    }
}

/// A text that does not end with a dash: one that does gets a letter behind it.
pub open spec fn closed_off(text: Seq<char>) -> Seq<char> {
    if text.last() == '-' {
        text + "x"@
    } else {
        text
    }
}

/// The name of the objects of an image whose digest is given: the first ten hexadecimal digits of
/// the digest, a dash and the image name with the characters that may occur.
pub open spec fn image_name(image: Seq<char>, digest: Seq<u8>) -> Seq<char> {
    closed_off(led(hex_of(digest).take(10)) + "-"@ + replaced(image))
}

/// The digest of an image name.
pub open spec fn image_digest(image: Seq<char>) -> Seq<u8> {
    sha1_of(encode_utf8(image))
}

/// The name of the objects of an image whose digest is given.
pub fn image_rfc1035_with(image: &str, digest: &[u8]) -> (name: String)
    requires
        5 <= digest@.len() <= 0x3fff_ffff,
    ensures
        name@ == image_name(image@, digest@),
        is_rfc1035_but_for_length(name@),
{
    let text = hex_text(digest);
    let hash_str = text.as_str().substring_char(0, 10);
    let first = hash_str.get_char(0);
    let hash = if '0' <= first && first <= '9' {
        "x".to_owned().concat(hash_str)
    } else {
        hash_str.to_owned()
    };
    let name = around(hash.as_str(), "-", replace_characters(image).as_str());
    proof {
        reveal_strlit("-");
        assert(hash_str@ =~= hex_of(digest@).take(10));
        image_names_are_rfc1035(image@, digest@);
    }
    let last = name.as_str().get_char(name.as_str().unicode_len() - 1);
    if last == '-' {
        name.concat("x")
    } else {
        name
    }
}

/// The name of the objects of an image, as RFC 1035 has it but for the length. Images whose names
/// differ only in replaced characters, or only beyond the place where a name is cut off, are told
/// apart by the digest in front.
pub fn image_rfc1035(image: &str) -> (name: Result<String, OperatorError>)
    ensures
        name matches Ok(n) ==> {
            &&& n@ == image_name(image@, image_digest(image@))
            &&& is_rfc1035_but_for_length(n@)
            &&& image_digest(image@).len() == 20
        },
        name matches Err(e) ==> e is Openssl,
{
    match sha1_digest(image.as_bytes()) {
        Ok(digest) => Ok(image_rfc1035_with(image, digest.as_slice())),
        Err(e) => Err(OperatorError::Openssl(e)),
    }
}

/// The hexadecimal digits in front of a name are lower case letters a to f and digits.
proof fn hash_characters(digest: Seq<u8>)
    requires
        digest.len() >= 5,
    ensures
        hex_of(digest).take(10).len() == 10,
        forall|i: int|
            0 <= i < 10 ==> '0' <= #[trigger] hex_of(digest).take(10)[i] <= '9' || 'a' <= hex_of(
                digest,
            ).take(10)[i] <= 'f',
{
    let hash = hex_of(digest).take(10);
    assert forall|i: int| 0 <= i < 10 implies '0' <= #[trigger] hash[i] <= '9' || 'a' <= hash[i]
        <= 'f' by {
        let byte = digest[i / 2] as int;
        assert(0 <= byte / 16 < 16 && 0 <= byte % 16 < 16);
        assert(hash[i] == hex_of(digest)[i]);
    }
}

/// Every name is a label as RFC 1035 has it, but for the length.
pub proof fn image_names_are_rfc1035(image: Seq<char>, digest: Seq<u8>)
    requires
        digest.len() >= 5,
    ensures
        is_rfc1035_but_for_length(image_name(image, digest)),
{
    reveal_strlit("-");
    reveal_strlit("x");
    hash_characters(digest);
    let hash = hex_of(digest).take(10);
    let front = led(hash);
    let whole = front + "-"@ + replaced(image);
    let name = image_name(image, digest);
    assert forall|i: int| 0 <= i < front.len() implies is_lower_or_digit(#[trigger] front[i]) by {
        if front.len() == 11 {
            if i > 0 {
                assert(front[i] == hash[i - 1]);
            }
        } else {
            assert(front[i] == hash[i]);
        }
    }
    assert forall|i: int| 0 <= i < name.len() implies is_lower_or_digit(#[trigger] name[i])
        || name[i] == '-' by {
        let n = front.len() as int;
        if i < n {
            assert(name[i] == front[i]);
        } else if i == n {
            assert(name[i] == '-');
        } else if i < whole.len() {
            assert(name[i] == replaced(image)[i - n - 1]);
            assert(name[i] == replacement(image[i - n - 1]));
        }
    }
    assert(name[0] == front[0]);
    assert(hash[0] == hex_of(digest).take(10)[0]);
    assert(name.last() != '-');
    assert(is_lower_or_digit(name[name.len() - 1]) || name[name.len() - 1] == '-');
}

/// A name that is a label as RFC 1035 has it without a letter in front or behind gets neither.
pub proof fn conforming_names_get_no_letter(image: Seq<char>, digest: Seq<u8>)
    requires
        digest.len() >= 5,
        is_rfc1035_but_for_length(hex_of(digest).take(10) + "-"@ + replaced(image)),
    ensures
        image_name(image, digest) == hex_of(digest).take(10) + "-"@ + replaced(image),
{
    reveal_strlit("-");
    let hash = hex_of(digest).take(10);
    let whole = hash + "-"@ + replaced(image);
    assert(whole[0] == hash[0]);
    assert(led(hash) == hash);
}

/// The hash that a name starts with.
spec fn hash_of_name(name: Seq<char>) -> Seq<char> {
    if name[0] == 'x' {
        name.subrange(1, 11)
    } else {
        name.take(10)
    }
}

/// A name starts with the hash of its digest, and is longer than that.
proof fn name_starts_with_hash(image: Seq<char>, digest: Seq<u8>)
    requires
        digest.len() >= 5,
    ensures
        image_name(image, digest).len() >= 12,
        hash_of_name(image_name(image, digest)) == hex_of(digest).take(10),
{
    reveal_strlit("-");
    reveal_strlit("x");
    hash_characters(digest);
    let hash = hex_of(digest).take(10);
    let front = led(hash);
    let whole = front + "-"@ + replaced(image);
    let name = image_name(image, digest);
    assert(name[0] == front[0]);
    if image.len() == 0 {
        assert(whole.last() == '-');
    }
    if front.len() == 11 {
        assert(front[0] == 'x');
        assert(name.subrange(1, 11) =~= hash);
    } else {
        assert('a' <= hash[0] <= 'f');
        assert(name.take(10) =~= hash);
    }
}

/// Two images have the same name only if their digests start with the same five bytes. If both
/// image names end with a letter or a digit, they then differ in nothing but replaced characters.
pub proof fn image_names_tell_images_apart(
    a: Seq<char>,
    a_digest: Seq<u8>,
    b: Seq<char>,
    b_digest: Seq<u8>,
)
    requires
        a_digest.len() >= 5,
        b_digest.len() >= 5,
        image_name(a, a_digest) == image_name(b, b_digest),
    ensures
        a_digest.take(5) == b_digest.take(5),
        a.len() > 0 && b.len() > 0 && replaced(a).last() != '-' && replaced(b).last() != '-'
            ==> replaced(a) == replaced(b),
{
    name_starts_with_hash(a, a_digest);
    name_starts_with_hash(b, b_digest);
    same_hash_same_bytes(a_digest, b_digest);
    if a.len() > 0 && b.len() > 0 && replaced(a).last() != '-' && replaced(b).last() != '-' {
        reveal_strlit("-");
        let front = led(hex_of(a_digest).take(10)) + "-"@;
        assert((front + replaced(a)).last() == replaced(a).last());
        assert((front + replaced(b)).last() == replaced(b).last());
        let n = front.len() as int;
        assert(image_name(a, a_digest).skip(n) =~= replaced(a));
        assert(image_name(b, b_digest).skip(n) =~= replaced(b));
    }
}

/// The first ten hexadecimal digits tell the first five bytes.
proof fn same_hash_same_bytes(a: Seq<u8>, b: Seq<u8>)
    requires
        a.len() >= 5,
        b.len() >= 5,
        hex_of(a).take(10) == hex_of(b).take(10),
    ensures
        a.take(5) == b.take(5),
{
    let x = hex_of(a);
    let y = hex_of(b);
    assert forall|i: int| 0 <= i < 5 implies a.take(5)[i] == b.take(5)[i] by {
        assert(x.take(10)[2 * i] == x[2 * i] && y.take(10)[2 * i] == y[2 * i]);
        assert(x.take(10)[2 * i + 1] == x[2 * i + 1] && y.take(10)[2 * i + 1] == y[2 * i + 1]);
        hex_digit_injective(a[i] as int / 16, b[i] as int / 16);
        hex_digit_injective(a[i] as int % 16, b[i] as int % 16);
    }
    assert(a.take(5) =~= b.take(5));
}

/// Different numbers have different hexadecimal digits.
proof fn hex_digit_injective(m: int, n: int)
    requires
        0 <= m < 16,
        0 <= n < 16,
        hex_digit(m) == hex_digit(n),
    ensures
        m == n,
{
    assert(hex_digit(m) as int == if m < 10 { 48 + m } else { 87 + m });
    assert(hex_digit(n) as int == if n < 10 { 48 + n } else { 87 + n });
}

/// The option of a name on the command line.
pub open spec fn flag(name: Seq<char>) -> Seq<char> {
    "--"@ + name
}

/// The pod that computes the PCR values of a boot image. The image is mounted, and so is the store
/// of PCR values; the command is told where to find the parts of the image.
pub open spec fn compute_pcrs_pod_spec(
    boot_image: Seq<char>,
    pcrs_compute_image: Seq<char>,
) -> PodSpecView {
    let image_mountpoint = "/"@ + "image"@;
    let pcrs_mountpoint = "/"@ + "pcrs"@;
    PodSpecView {
        service_account_name: Some("compute-pcrs"@),
        containers: seq![
            ContainerView {
                name: PCR_COMMAND_NAME@,
                image: pcrs_compute_image,
                command: seq![
                    PCR_COMMAND_NAME@,
                    flag("kernels"@),
                    image_mountpoint + "/"@ + "usr/lib/modules"@,
                    flag("esp"@),
                    image_mountpoint + "/"@ + "usr/lib/bootupd/updates"@,
                    flag("efivars"@),
                    "/reference-values/efivars/qemu-ovmf/fedora-42"@,
                    flag("mokvars"@),
                    "/reference-values/mok-variables/fedora-42"@,
                    flag("image"@),
                    boot_image,
                ],
                ports: None,
                volume_mounts: seq![
                    VolumeMountView { name: "image"@, mount_path: image_mountpoint },
                    VolumeMountView { name: "pcrs"@, mount_path: pcrs_mountpoint },
                ],
            },
        ],
        volumes: seq![
            VolumeView {
                name: "image"@,
                source: VolumeSourceView::Image { reference: boot_image },
            },
            VolumeView {
                name: "pcrs"@,
                source: VolumeSourceView::ConfigMap {
                    name: PCR_CONFIG_MAP@,
                    items: Some(seq![(PCR_CONFIG_FILE@, PCR_CONFIG_FILE@)]),
                },
            },
        ],
        restart_policy: Some("Never"@),
    }
}

/// Adds an option with its value to a command line.
fn add_flag(cmd: Vec<String>, name: &str, value: &str) -> (longer: Vec<String>)
    ensures
        longer.deep_view() == cmd.deep_view() + seq![flag(name@), value@],
{
    let ghost before = cmd.deep_view();
    let mut longer = cmd;
    longer.push("--".to_owned().concat(name));
    longer.push(value.to_owned());
    assert(longer.deep_view() =~= before + seq![flag(name@), value@]);
    longer
}

/// Makes the pod that computes the PCR values of a boot image.
pub fn build_compute_pcrs_pod_spec(boot_image: &str, pcrs_compute_image: &str) -> (pod: PodSpec)
    ensures
        pod.deep_view() == compute_pcrs_pod_spec(boot_image@, pcrs_compute_image@),
{
    let ghost wanted = compute_pcrs_pod_spec(boot_image@, pcrs_compute_image@);
    let image_volume_name = "image";
    let image_mountpoint = "/".to_owned().concat(image_volume_name);
    let pcrs_volume_name = "pcrs";
    let pcrs_mountpoint = "/".to_owned().concat(pcrs_volume_name);

    let kernels = around(image_mountpoint.as_str(), "/", "usr/lib/modules");
    let esp = around(image_mountpoint.as_str(), "/", "usr/lib/bootupd/updates");
    let mut cmd: Vec<String> = Vec::new();
    cmd.push(PCR_COMMAND_NAME.to_owned());
    let cmd = add_flag(cmd, "kernels", kernels.as_str());
    let cmd = add_flag(cmd, "esp", esp.as_str());
    let cmd = add_flag(cmd, "efivars", "/reference-values/efivars/qemu-ovmf/fedora-42");
    let cmd = add_flag(cmd, "mokvars", "/reference-values/mok-variables/fedora-42");
    let cmd = add_flag(cmd, "image", boot_image);
    assert(cmd.deep_view() =~= wanted.containers[0].command);

    let mut volume_mounts: Vec<VolumeMount> = Vec::new();
    volume_mounts.push(
        VolumeMount { name: image_volume_name.to_owned(), mount_path: image_mountpoint },
    );
    volume_mounts.push(
        VolumeMount { name: pcrs_volume_name.to_owned(), mount_path: pcrs_mountpoint },
    );
    assert(volume_mounts.deep_view() =~= wanted.containers[0].volume_mounts);

    let mut items: Vec<(String, String)> = Vec::new();
    items.push((PCR_CONFIG_FILE.to_owned(), PCR_CONFIG_FILE.to_owned()));
    assert(items.deep_view() =~= seq![(PCR_CONFIG_FILE@, PCR_CONFIG_FILE@)]);
    let mut volumes: Vec<Volume> = Vec::new();
    volumes.push(
        Volume {
            name: image_volume_name.to_owned(),
            source: VolumeSource::Image { reference: boot_image.to_owned() },
        },
    );
    volumes.push(
        Volume {
            name: pcrs_volume_name.to_owned(),
            source: VolumeSource::ConfigMap {
                name: PCR_CONFIG_MAP.to_owned(),
                items: Some(items),
            },
        },
    );
    assert(volumes.deep_view() =~= wanted.volumes);

    let container = Container {
        name: PCR_COMMAND_NAME.to_owned(),
        image: pcrs_compute_image.to_owned(),
        command: cmd,
        ports: None,
        volume_mounts,
    };
    let mut containers: Vec<Container> = Vec::new();
    containers.push(container);
    assert(containers.deep_view() =~= wanted.containers) by {
        assert(container.deep_view() =~= wanted.containers[0]);
    }
    PodSpec {
        service_account_name: Some("compute-pcrs".to_owned()),
        containers,
        volumes,
        restart_policy: Some("Never".to_owned()),
    }
}

/// The most bytes that the name of a job may have.
pub const JOB_NAME_LIMIT: usize = 63;

/// The name of the job that computes the PCR values of an image whose digest is given.
pub open spec fn job_name(image: Seq<char>, digest: Seq<u8>) -> Seq<char> {
    cut(PCR_COMMAND_NAME@ + "-"@ + image_name(image, digest), JOB_NAME_LIMIT as int)
}

/// The job that computes the PCR values of a boot image.
pub open spec fn compute_pcrs_job(
    owner: OwnerReferenceView,
    pcrs_compute_image: Seq<char>,
    boot_image: Seq<char>,
    digest: Seq<u8>,
) -> JobView {
    JobView {
        metadata: ObjectMetaView {
            name: Some(job_name(boot_image, digest)),
            labels: Some(map![JOB_LABEL_KEY@ => PCR_COMMAND_NAME@]),
            owner_references: Some(seq![owner]),
        },
        pod_spec: compute_pcrs_pod_spec(boot_image, pcrs_compute_image),
    }
}

/// Makes the job that computes the PCR values of a boot image whose digest is given.
pub fn compute_fresh_pcrs_with(ctx: RvContextData, boot_image: &str, digest: &[u8]) -> (job: Job)
    requires
        5 <= digest@.len() <= 0x3fff_ffff,
    ensures
        job.deep_view() == compute_pcrs_job(
            ctx.owner_reference.deep_view(),
            ctx.pcrs_compute_image@,
            boot_image@,
            digest@,
        ),
{
    let rfc1035_image_name = image_rfc1035_with(boot_image, digest);
    let full_name = around(PCR_COMMAND_NAME, "-", rfc1035_image_name.as_str());
    proof {
        job_name_is_ascii(boot_image@, digest@);
        ascii_cuts_cleanly(full_name@, JOB_NAME_LIMIT as int);
    }
    let name = truncate(full_name.as_str(), JOB_NAME_LIMIT);
    let pod_spec = build_compute_pcrs_pod_spec(boot_image, ctx.pcrs_compute_image.as_str());
    let mut owners: Vec<OwnerReference> = Vec::new();
    let owner = ctx.owner_reference;
    owners.push(owner);
    assert(owners.deep_view() =~= seq![owner.deep_view()]);
    Job {
        metadata: ObjectMeta {
            name: Some(name),
            labels: Some(one_entry(JOB_LABEL_KEY, PCR_COMMAND_NAME)),
            owner_references: Some(owners),
        },
        pod_spec,
    }
}

/// Makes the job that computes the PCR values of a boot image.
pub fn compute_fresh_pcrs(ctx: RvContextData, boot_image: &str) -> (job: Result<
    Job,
    OperatorError,
>)
    ensures
        job matches Ok(j) ==> {
            &&& j.deep_view() == compute_pcrs_job(
                ctx.owner_reference.deep_view(),
                ctx.pcrs_compute_image@,
                boot_image@,
                image_digest(boot_image@),
            )
            &&& image_digest(boot_image@).len() == 20
        },
        job matches Err(e) ==> e is Openssl,
{
    match sha1_digest(boot_image.as_bytes()) {
        Ok(digest) => Ok(compute_fresh_pcrs_with(ctx, boot_image, digest.as_slice())),
        Err(e) => Err(OperatorError::Openssl(e)),
    }
}

/// The full name of a job has only ASCII characters.
pub proof fn job_name_is_ascii(image: Seq<char>, digest: Seq<u8>)
    requires
        digest.len() >= 5,
    ensures
        is_ascii_chars(PCR_COMMAND_NAME@ + "-"@ + image_name(image, digest)),
        (PCR_COMMAND_NAME@ + "-"@).len() == 13,
{
    reveal_strlit("compute-pcrs");
    reveal_strlit("-");
    image_names_are_rfc1035(image, digest);
    let name = image_name(image, digest);
    let full = PCR_COMMAND_NAME@ + "-"@ + name;
    assert forall|i: int| 0 <= i < full.len() implies '\0' <= #[trigger] full[i] <= '\u{7f}' by {
        if i < 12 {
            assert(full[i] == PCR_COMMAND_NAME@[i]);
        } else if i > 12 {
            assert(full[i] == name[i - 13]);
        }
    }
}

/// The name of a job is short enough, and is how the full name starts.
pub proof fn job_names_are_short(image: Seq<char>, digest: Seq<u8>)
    requires
        digest.len() >= 5,
    ensures
        encode_utf8(job_name(image, digest)).len() <= 63,
        job_name(image, digest).is_prefix_of(
            PCR_COMMAND_NAME@ + "-"@ + image_name(image, digest),
        ),
{
    let full = PCR_COMMAND_NAME@ + "-"@ + image_name(image, digest);
    job_name_is_ascii(image, digest);
    ascii_cuts_cleanly(full, JOB_NAME_LIMIT as int);
    cut_is_short(full, JOB_NAME_LIMIT as int);
}

/// Two images have jobs of the same name only if their digests start with the same five bytes,
/// however much of the image names is cut off.
pub proof fn job_names_tell_images_apart(
    a: Seq<char>,
    a_digest: Seq<u8>,
    b: Seq<char>,
    b_digest: Seq<u8>,
)
    requires
        a_digest.len() >= 5,
        b_digest.len() >= 5,
        job_name(a, a_digest) == job_name(b, b_digest),
    ensures
        a_digest.take(5) == b_digest.take(5),
{
    job_name_holds_hash(a, a_digest);
    job_name_holds_hash(b, b_digest);
    same_hash_same_bytes(a_digest, b_digest);
}

/// The hash in the name of a job is never cut off.
proof fn job_name_holds_hash(image: Seq<char>, digest: Seq<u8>)
    requires
        digest.len() >= 5,
    ensures
        hash_of_name(job_name(image, digest).skip(13)) == hex_of(digest).take(10),
{
    let name = image_name(image, digest);
    let full = PCR_COMMAND_NAME@ + "-"@ + name;
    let rest = job_name(image, digest).skip(13);
    job_name_is_ascii(image, digest);
    ascii_cuts_cleanly(full, JOB_NAME_LIMIT as int);
    name_starts_with_hash(image, digest);
    assert(rest =~= if full.len() <= 63 { name } else { name.take(50) });
    assert(rest[0] == name[0]);
    assert(rest.subrange(1, 11) =~= name.subrange(1, 11));
    assert(rest.take(10) =~= name.take(10));
}

/// The volumes of the pod that computes PCR values have different names, and each mount has its
/// volume.
pub proof fn compute_pcrs_mounts_are_backed(boot_image: Seq<char>, pcrs_compute_image: Seq<char>)
    ensures
        mounts_are_backed(compute_pcrs_pod_spec(boot_image, pcrs_compute_image)),
{
    reveal_strlit("image");
    reveal_strlit("pcrs");
    let pod = compute_pcrs_pod_spec(boot_image, pcrs_compute_image);
    assert("image"@[0] == 'i' && "pcrs"@[0] == 'p');
    assert forall|c: int, m: int|
        0 <= c < pod.containers.len() && 0 <= m < pod.containers[c].volume_mounts.len() implies
        has_volume(pod, (#[trigger] pod.containers[c].volume_mounts[m]).name) by {
        assert(pod.volumes[m].name == pod.containers[c].volume_mounts[m].name);
    }
}

/// The computation reads the very image that it is asked about: the volume below which it looks
/// for kernels and for the boot partition holds the image that is named on its command line.
pub proof fn computation_reads_its_image(boot_image: Seq<char>, pcrs_compute_image: Seq<char>)
    ensures
        ({
            let pod = compute_pcrs_pod_spec(boot_image, pcrs_compute_image);
            let container = pod.containers[0];
            let mount = container.volume_mounts[0];
            &&& pod.volumes[0].name == mount.name
            &&& pod.volumes[0].source == (VolumeSourceView::Image { reference: boot_image })
            &&& mount.mount_path.is_prefix_of(container.command[2])
            &&& mount.mount_path.is_prefix_of(container.command[4])
            &&& container.command.last() == boot_image
        }),
{
    let pod = compute_pcrs_pod_spec(boot_image, pcrs_compute_image);
    let command = pod.containers[0].command;
    let path = pod.containers[0].volume_mounts[0].mount_path;
    assert(path =~= command[2].take(path.len() as int));
    assert(path =~= command[4].take(path.len() as int));
}

/// The data of the config map that holds the store: the store as JSON, and nothing else.
pub open spec fn image_pcrs_data(json: Seq<char>) -> Map<Seq<char>, Seq<char>> {
    map![PCR_CONFIG_FILE@ => json]
}

/// Makes the data of the config map that holds the store.
pub fn store_image_pcrs(image_pcrs_json: &str) -> (data: TextMap<String>)
    ensures
        data@ == image_pcrs_data(image_pcrs_json@),
{
    one_entry(PCR_CONFIG_FILE, image_pcrs_json)
}

/// The config map of a store.
pub open spec fn pcrs_config_map(json: Seq<char>) -> ConfigMapView {
    ConfigMapView { metadata: named(PCR_CONFIG_MAP@), data: Some(image_pcrs_data(json)) }
}

/// Makes the config map that holds an empty store, given the JSON of such a store.
pub fn create_pcrs_config_map(empty_store_json: &str) -> (map: ConfigMap)
    ensures
        map.deep_view() == pcrs_config_map(empty_store_json@),
{
    ConfigMap {
        metadata: ObjectMeta::named(PCR_CONFIG_MAP),
        data: Some(store_image_pcrs(empty_store_json)),
    }
}

/// What is read of a config map is what was last stored in it, and a config map that was just
/// made can be read.
pub proof fn stored_image_pcrs_are_read_back(json: Seq<char>)
    ensures
        image_pcrs_data(json).contains_key(PCR_CONFIG_FILE@),
        image_pcrs_data(json)[PCR_CONFIG_FILE@] == json,
        pcrs_config_map(json).data == Some(image_pcrs_data(json)),
{
}

/// The job that computes PCR values gets to see the store: it mounts the file that holds it, from
/// the config map that was made for it.
pub proof fn computation_sees_the_store(
    boot_image: Seq<char>,
    pcrs_compute_image: Seq<char>,
    json: Seq<char>,
)
    ensures
        ({
            let pod = compute_pcrs_pod_spec(boot_image, pcrs_compute_image);
            let map = pcrs_config_map(json);
            &&& pod.volumes[1].name == pod.containers[0].volume_mounts[1].name
            &&& pod.volumes[1].source matches VolumeSourceView::ConfigMap { name, items }
            &&& map.metadata.name == Some(name)
            &&& items matches Some(items)
            &&& forall|i: int|
                0 <= i < items.len() ==> map.data->0.contains_key((#[trigger] items[i]).0)
        }),
{
}

/// The reference by which an image is pulled to look at its label: the one that its text is. A text
/// that is none is an error, and nothing is pulled.
pub fn image_to_pull(image_ref: &str) -> (reference: Result<oci_client::Reference, OperatorError>)
    ensures
        reference is Ok <==> reference_of(image_ref@) is Some,
        reference matches Ok(r) ==> reference_of(image_ref@) == Some(r),
        reference matches Err(e) ==> e is Reference,
        image_ref@.len() == 0 ==> reference is Err,
{
    match parse_reference(image_ref) {
        Ok(reference) => Ok(reference),
        Err(e) => Err(OperatorError::Reference(e)),
    }
}

/// The text of the label with the PCR values among the labels of an image, if there is one.
pub open spec fn pcr_label(labels: Option<Map<Seq<char>, Seq<char>>>) -> Option<Seq<char>> {
    match labels {
        Some(map) => if map.contains_key(PCR_LABEL@) {
            Some(map[PCR_LABEL@])
        } else {
            None
        },
        None => None,
    }
}

/// Looks for the label with the PCR values among the labels of an image.
pub fn find_pcr_label(labels: Vec<(String, String)>) -> (label: Option<String>)
    ensures
        forall|map: Map<Seq<char>, Seq<char>>| #[trigger]
            are_entries_of(labels.deep_view(), map) ==> label.deep_view() == pcr_label(Some(map)),
        label is None <==> forall|i: int|
            0 <= i < labels@.len() ==> (#[trigger] labels.deep_view()[i]).0 != PCR_LABEL@,
        label matches Some(l) ==> labels.deep_view().contains((PCR_LABEL@, l@)),
        label is None ==> !to_map(labels.deep_view()).contains_key(PCR_LABEL@),
{
    let ghost all = labels.deep_view();
    let mut i: usize = 0;
    while i < labels.len()
        invariant
            i <= labels@.len(),
            all == labels.deep_view(),
            forall|j: int| 0 <= j < i ==> (#[trigger] all[j]).0 != PCR_LABEL@,
        decreases labels@.len() - i,
    {
        let (key, text) = &labels[i];
        assert(all[i as int] == (key@, text@));
        if compare_text(key.as_str(), PCR_LABEL) == Side::Same {
            return Some(text.clone());
        }
        i = i + 1;
    }
    assert forall|map: Map<Seq<char>, Seq<char>>| #[trigger]
        are_entries_of(all, map) implies !map.contains_key(PCR_LABEL@) by {
        if map.contains_key(PCR_LABEL@) {
            let j = choose|j: int| key_at(all, PCR_LABEL@, j);
            assert(all[j].0 == PCR_LABEL@);
        }
    }
    None
}

/// The text of the label with the PCR values in the configuration of an image, if it has one.
pub fn fetch_pcr_label(raw_config: &str) -> (label: Result<Option<String>, OperatorError>)
    ensures
        label is Ok <==> labels_of_config(raw_config@) is Some,
        label matches Ok(l) ==> l.deep_view() == pcr_label(labels_of_config(raw_config@)->0),
        label matches Err(e) ==> e is Json,
{
    match config_labels(raw_config) {
        Ok(Some(labels)) => Ok(find_pcr_label(labels)),
        Ok(None) => Ok(None),
        Err(e) => Err(OperatorError::Json(e)),
    }
}

/// The name of the machine config that a machine config pool has switched to.
pub fn config_of_pool(mcp: &MachineConfigPool) -> (name: Result<String, OperatorError>)
    ensures
        mcp.metadata.name is None <==> name matches Err(OperatorError::NoPoolName),
        match mcp.metadata.name {
            None => true,
            Some(pool) => match mcp.spec.configuration {
                None => name matches Err(OperatorError::NoPoolConfiguration { pool: p }) && p@
                    == pool@,
                Some(config) => match config.name {
                    None => name matches Err(OperatorError::NoPoolConfigurationName { pool: p })
                        && p@ == pool@,
                    Some(config_name) => name matches Ok(n) && n@ == config_name@,
                },
            },
        },
{
    let mcp_name = match &mcp.metadata.name {
        None => {
            return Err(OperatorError::NoPoolName);
        },
        Some(name) => name,
    };
    let config = match &mcp.spec.configuration {
        None => {
            return Err(OperatorError::NoPoolConfiguration { pool: mcp_name.clone() });
        },
        Some(config) => config,
    };
    match &config.name {
        None => Err(OperatorError::NoPoolConfigurationName { pool: mcp_name.clone() }),
        Some(name) => Ok(name.clone()),
    }
}

/// The approval of an image.
pub open spec fn approval(url: Seq<char>, digest: Seq<u8>) -> ApprovedImageView {
    ApprovedImageView { metadata: named(image_name(url, digest)), reference: url }
}

/// Makes the approval of an image whose digest is given.
pub fn approve_image_with(url: String, digest: &[u8]) -> (image: ApprovedImage)
    requires
        5 <= digest@.len() <= 0x3fff_ffff,
    ensures
        image.deep_view() == approval(url@, digest@),
{
    let name = image_rfc1035_with(url.as_str(), digest);
    ApprovedImage {
        metadata: ObjectMeta::named(name.as_str()),
        spec: ApprovedImageSpec { reference: url },
    }
}

/// Makes the approval of the image of a machine config.
pub fn approve_os_image(config_name: &str, mc: MachineConfig) -> (image: Result<
    ApprovedImage,
    OperatorError,
>)
    ensures
        mc.spec.os_image_url is None <==> image is Err && image->Err_0 is NoImageUrl,
        image matches Err(OperatorError::NoImageUrl { config }) ==> config@ == config_name@,
        image matches Err(e) ==> e is NoImageUrl || e is Openssl,
        image matches Ok(i) ==> {
            &&& i.deep_view() == approval(
                mc.spec.os_image_url->0@,
                image_digest(mc.spec.os_image_url->0@),
            )
            &&& image_digest(mc.spec.os_image_url->0@).len() == 20
        },
{
    match mc.spec.os_image_url {
        None => Err(OperatorError::NoImageUrl { config: config_name.to_owned() }),
        Some(url) => match sha1_digest(url.as_str().as_bytes()) {
            Ok(digest) => Ok(approve_image_with(url, digest.as_slice())),
            Err(e) => Err(OperatorError::Openssl(e)),
        },
    }
}

/// When a machine config pool is reconciled again, given how approving its image went.
pub fn mc_reconcile(outcome: Result<(), ControllerError>) -> (action: Result<
    ReconcileAction,
    ControllerError,
>)
    ensures
        outcome is Ok ==> action == Ok::<ReconcileAction, ControllerError>(
            ReconcileAction::AwaitChange,
        ),
        outcome matches Err(e) ==> action == Err::<ReconcileAction, ControllerError>(e),
{
    match outcome {
        Ok(_) => Ok(ReconcileAction::AwaitChange),
        Err(e) => Err(e),
    }
}

/// What is logged when the image of a pool that was there from the start is to be approved.
pub fn initial_pool_report(meta: &ObjectMeta, outcome: Result<(), &str>) -> (line: String)
    ensures
        line@ == match outcome {
            Ok(_) => "Set image of existing MCP "@ + display_name(meta.name.deep_view())
                + " as approved"@,
            Err(e) => "Failed to set image of existing MCP "@ + display_name(
                meta.name.deep_view(),
            ) + ": "@ + e@,
        },
{
    let name = name_or_default(meta);
    match outcome {
        Ok(_) => around("Set image of existing MCP ", name.as_str(), " as approved"),
        Err(e) => around("Failed to set image of existing MCP ", name.as_str(), ": ").concat(e),
    }
}

/// How far a job has come.
pub struct JobStatus {
    /// When the job completed, if it did.
    pub completion_time: Option<Timestamp>,
}

/// What is to be done about a job that changed.
pub enum JobStep {
    /// The job is still running. There is a line to log, and the job is looked at again later.
    Wait { line: String, action: ReconcileAction },
    /// The job is done. It is deleted together with its pod, then the reference values are updated
    /// and changes are awaited.
    Finish { name: String, action: ReconcileAction },
}

/// Decides what to do about a job that changed.
pub fn job_reconcile(meta: &ObjectMeta, status: &Option<JobStatus>) -> (step: Result<
    JobStep,
    OperatorError,
>)
    ensures
        meta.name is None <==> step matches Err(OperatorError::NoJobName),
        match meta.name {
            None => true,
            Some(name) => match *status {
                None => step matches Err(OperatorError::NoJobStatus { job }) && job@ == name@,
                Some(status) => match status.completion_time {
                    None => {
                        &&& step matches Ok(JobStep::Wait { line, action })
                        &&& line@ == "Job "@ + name@ + " changed, but had not completed"@
                        &&& action == (ReconcileAction::Requeue { secs: 300 })
                    },
                    Some(_) => {
                        &&& step matches Ok(JobStep::Finish { name: n, action })
                        &&& n@ == name@
                        &&& action == ReconcileAction::AwaitChange
                    },
                },
            },
        },
{
    let name = match &meta.name {
        None => {
            return Err(OperatorError::NoJobName);
        },
        Some(name) => name,
    };
    let status = match status {
        None => {
            return Err(OperatorError::NoJobStatus { job: name.clone() });
        },
        Some(status) => status,
    };
    if status.completion_time.is_none() {
        return Ok(
            JobStep::Wait {
                line: around("Job ", name.as_str(), " changed, but had not completed"),
                action: ReconcileAction::Requeue { secs: 300 },
            },
        );
    }
    Ok(JobStep::Finish { name: name.clone(), action: ReconcileAction::AwaitChange })
}

/// The selector of a label with a value.
pub open spec fn selector_of(key: Seq<char>, value: Seq<char>) -> Seq<char> {
    key + "="@ + value
}

/// The selector of the jobs that compute PCR values.
pub fn job_selector() -> (selector: String)
    ensures
        selector@ == selector_of(JOB_LABEL_KEY@, PCR_COMMAND_NAME@),
{
    around(JOB_LABEL_KEY, "=", PCR_COMMAND_NAME)
}

/// The jobs that are made are the ones that are watched: they have the label that is selected.
pub proof fn made_jobs_are_watched(
    owner: OwnerReferenceView,
    pcrs_compute_image: Seq<char>,
    boot_image: Seq<char>,
    digest: Seq<u8>,
)
    ensures
        compute_pcrs_job(
            owner,
            pcrs_compute_image,
            boot_image,
            digest,
        ).metadata.labels->0.contains_pair(JOB_LABEL_KEY@, PCR_COMMAND_NAME@),
{
}

/// What is known of the label with the PCR values of an image.
pub enum PcrLabel {
    /// It was not looked at yet.
    NotFetched,
    /// The image has no such label.
    Absent,
    /// The label holds these values.
    Present(Vec<Pcr>),
}

/// What is to be done about an image that is newly approved.
pub enum ImageStep {
    /// Nothing: the image is already in the store.
    Done,
    /// Its label is to be fetched. The store comes back as it was.
    FetchLabel(ImagePcrs),
    /// Its PCR values are to be computed by a job.
    ComputeFresh,
    /// This is the new store. It is to be written, and the reference values are to be updated.
    Store(ImagePcrs),
}

/// Decides what to do about an image that is newly approved. An image that is in the store stays
/// there as it is, even if its label has changed since.
pub fn handle_new_image(image_pcrs: ImagePcrs, boot_image: &str, label: PcrLabel) -> (step:
    ImageStep)
    ensures
        image_pcrs@.contains_key(boot_image@) ==> step is Done,
        !image_pcrs@.contains_key(boot_image@) ==> match label {
            PcrLabel::NotFetched => step matches ImageStep::FetchLabel(store) && store
                == image_pcrs,
            PcrLabel::Absent => step is ComputeFresh,
            PcrLabel::Present(pcrs) => step matches ImageStep::Store(store) && store@
                == image_pcrs@.insert(boot_image@, pcrs.deep_view()),
        },
{
    if image_pcrs.0.contains_key(boot_image) {
        return ImageStep::Done;
    }
    match label {
        PcrLabel::NotFetched => ImageStep::FetchLabel(image_pcrs),
        PcrLabel::Absent => ImageStep::ComputeFresh,
        PcrLabel::Present(pcrs) => ImageStep::Store(
            ImagePcrs(image_pcrs.0.insert(boot_image.to_owned(), pcrs)),
        ),
    }
}

/// Takes an image out of the store. There is a line to log if it was not in it.
pub fn disallow_image(image_pcrs: ImagePcrs, boot_image: &str) -> (r: (ImagePcrs, Option<String>))
    ensures
        r.0@ == image_pcrs@.remove(boot_image@),
        r.1.deep_view() == if image_pcrs@.contains_key(boot_image@) {
            None
        } else {
            Some(
                "Image "@ + boot_image@
                    + " was to be disallowed, but already was not allowed"@,
            )
        },
{
    let (rest, removed) = image_pcrs.0.remove(boot_image);
    let line = match removed {
        Some(_) => None,
        None => Some(
            around("Image ", boot_image, " was to be disallowed, but already was not allowed"),
        ),
    };
    (ImagePcrs(rest), line)
}

/// Disallowing an image that was just approved gives the store back as it was, and approving or
/// disallowing an image touches no other.
pub proof fn disallowing_undoes_approving(
    store: Map<Seq<char>, Seq<PcrView>>,
    image: Seq<char>,
    pcrs: Seq<PcrView>,
)
    requires
        !store.contains_key(image),
    ensures
        store.insert(image, pcrs).remove(image) == store,
        forall|other: Seq<char>|
            other != image ==> {
                &&& #[trigger] store.insert(image, pcrs).contains_key(other)
                    == store.contains_key(other)
                &&& store.remove(image).contains_key(other) == store.contains_key(other)
                &&& store.insert(image, pcrs)[other] == store[other]
                &&& store.remove(image)[other] == store[other]
            },
{
    assert(store.insert(image, pcrs).remove(image) =~= store);
}

/// Disallowing an image twice is disallowing it once.
pub proof fn disallowing_twice_is_once(store: Map<Seq<char>, Seq<PcrView>>, image: Seq<char>)
    ensures
        store.remove(image).remove(image) == store.remove(image),
{
    assert(store.remove(image).remove(image) =~= store.remove(image));
}

/// What the stream of approvals yields.
pub enum ImageEvent {
    /// An approval was made.
    Added(ApprovedImage),
    /// An approval was changed.
    Modified(ApprovedImage),
    /// An approval was withdrawn.
    Deleted(ApprovedImage),
    /// The cluster reports an error.
    Error(String),
    /// Something else was reported.
    Other,
    /// No event could be received.
    Unreceived(String),
    /// There are no more events.
    End,
}

/// The contents of an `ImageEvent`.
#[verifier::ext_equal]
pub enum ImageEventView {
    Added(ApprovedImageView),
    Modified(ApprovedImageView),
    Deleted(ApprovedImageView),
    Error(Seq<char>),
    Other,
    Unreceived(Seq<char>),
    End,
}

impl DeepView for ImageEvent {
    type V = ImageEventView;

    open spec fn deep_view(&self) -> ImageEventView {
        match self {
            ImageEvent::Added(s) => ImageEventView::Added(s.deep_view()),
            ImageEvent::Modified(s) => ImageEventView::Modified(s.deep_view()),
            ImageEvent::Deleted(s) => ImageEventView::Deleted(s.deep_view()),
            ImageEvent::Error(e) => ImageEventView::Error(e@),
            ImageEvent::Other => ImageEventView::Other,
            ImageEvent::Unreceived(e) => ImageEventView::Unreceived(e@),
            ImageEvent::End => ImageEventView::End,
        }
    }
}

/// What is to be done about an event.
pub enum ImageAction {
    /// The image is to be approved.
    Approve { image: String },
    /// The image is to be disallowed.
    Disallow { image: String },
    /// A warning is to be logged.
    Warn { line: String },
    /// Nothing.
    Ignore,
    /// The watch is over.
    Stop,
}

/// The contents of an `ImageAction`.
#[verifier::ext_equal]
pub enum ImageActionView {
    Approve { image: Seq<char> },
    Disallow { image: Seq<char> },
    Warn { line: Seq<char> },
    Ignore,
    Stop,
}

impl DeepView for ImageAction {
    type V = ImageActionView;

    open spec fn deep_view(&self) -> ImageActionView {
        match self {
            ImageAction::Approve { image } => ImageActionView::Approve { image: image@ },
            ImageAction::Disallow { image } => ImageActionView::Disallow { image: image@ },
            ImageAction::Warn { line } => ImageActionView::Warn { line: line@ },
            ImageAction::Ignore => ImageActionView::Ignore,
            ImageAction::Stop => ImageActionView::Stop,
        }
    }
}

/// What an event leads to. Only the end of the stream ends the watch.
pub open spec fn action_for(event: ImageEventView) -> ImageActionView {
    match event {
        ImageEventView::Added(s) => ImageActionView::Approve { image: s.reference },
        ImageEventView::Modified(s) => ImageActionView::Approve { image: s.reference },
        ImageEventView::Deleted(s) => ImageActionView::Disallow { image: s.reference },
        ImageEventView::Error(e) => ImageActionView::Warn {
            line: "Error watching ApprovedImages: "@ + e,
        },
        ImageEventView::Other => ImageActionView::Ignore,
        ImageEventView::Unreceived(e) => ImageActionView::Warn {
            line: "Error receiving ApprovedImages event: "@ + e,
        },
        ImageEventView::End => ImageActionView::Stop,
    }
}

/// Decides what to do about an event.
pub fn watch_images(event: ImageEvent) -> (action: ImageAction)
    ensures
        action.deep_view() == action_for(event.deep_view()),
{
    match event {
        ImageEvent::Added(s) => ImageAction::Approve { image: s.spec.reference },
        ImageEvent::Modified(s) => ImageAction::Approve { image: s.spec.reference },
        ImageEvent::Deleted(s) => ImageAction::Disallow { image: s.spec.reference },
        ImageEvent::Error(e) => ImageAction::Warn {
            line: "Error watching ApprovedImages: ".to_owned().concat(e.as_str()),
        },
        ImageEvent::Other => ImageAction::Ignore,
        ImageEvent::Unreceived(e) => ImageAction::Warn {
            line: "Error receiving ApprovedImages event: ".to_owned().concat(e.as_str()),
        },
        ImageEvent::End => ImageAction::Stop,
    }
}

/// The actions of a watch over a stream of events: that of the first event, and then, unless it
/// ends the watch, those of the rest. How an action turns out has no part in it.
pub open spec fn watched(events: Seq<ImageEventView>) -> Seq<ImageActionView>
    decreases events.len(),
{
    if events.len() == 0 {
        Seq::empty()
    } else if action_for(events[0]) is Stop {
        seq![action_for(events[0])]
    } else {
        seq![action_for(events[0])] + watched(events.drop_first())
    }
}

/// A watch goes through the whole stream: each event leads to one action, in the order of the
/// events, and then the end of the stream ends the watch. No error ends it before.
pub proof fn watch_goes_through_the_stream(events: Seq<ImageEventView>)
    requires
        forall|i: int| 0 <= i < events.len() ==> !(#[trigger] events[i] is End),
    ensures
        watched(events.push(ImageEventView::End)) == events.map_values(
            |event: ImageEventView| action_for(event),
        ).push(ImageActionView::Stop),
        forall|i: int| 0 <= i < events.len() ==> !(action_for(#[trigger] events[i]) is Stop),
    decreases events.len(),
{
    let all = events.push(ImageEventView::End);
    let wanted = events.map_values(|event: ImageEventView| action_for(event)).push(
        ImageActionView::Stop,
    );
    if events.len() == 0 {
        assert(watched(all) =~= wanted);
    } else {
        let rest = events.drop_first();
        assert forall|i: int| 0 <= i < rest.len() implies !(#[trigger] rest[i] is End) by {
            assert(rest[i] == events[i + 1]);
        }
        watch_goes_through_the_stream(rest);
        assert(all.drop_first() =~= rest.push(ImageEventView::End));
        assert(!(events[0] is End));
        assert(watched(all) =~= wanted);
    }
}

/// What is logged after an image was to be approved.
pub fn approval_report(image: &str, outcome: Result<(), &str>) -> (line: String)
    ensures
        line@ == match outcome {
            Ok(_) => "Added PCRs for image "@ + image@,
            Err(e) => "Failed to add PCRs for image "@ + image@ + ": "@ + e@,
        },
{
    match outcome {
        Ok(_) => "Added PCRs for image ".to_owned().concat(image),
        Err(e) => around("Failed to add PCRs for image ", image, ": ").concat(e),
    }
}

/// What is logged after an image was to be disallowed.
pub fn disallowance_report(image: &str, outcome: Result<(), &str>) -> (line: String)
    ensures
        line@ == match outcome {
            Ok(_) => "Disallowed image "@ + image@,
            Err(e) => "Failed to disallow image "@ + image@ + ": "@ + e@,
        },
{
    match outcome {
        Ok(_) => "Disallowed image ".to_owned().concat(image),
        Err(e) => around("Failed to disallow image ", image, ": ").concat(e),
    }
}

} // verus!
