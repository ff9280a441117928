//! Laws of patches, reconciliation, mocked replies and errors.
use crate::controller::{
    controller_error_policy, controller_info, info_if_exists, name_or_default, ControllerError,
    CreateReply, ReconcileAction,
};
use crate::crds::ConfidentialClusterSpec;
use crate::error::OperatorError;
use crate::kube_objects::ObjectMeta;
use crate::laws::basics::lists_are_seen_whole;
use crate::mock_client::{error_response, mock_reply, ErrorResponse};
use crate::outside::{json_of_error_response, status_code_of};
use crate::patch::{patch, replace_value, PatchOperation, PatchValue};
use vstd::prelude::*;

verus! {

/// The operation makes sure that a value is at a path.
pub open spec fn tests(operation: PatchOperation, path: Seq<char>, value: PatchValue) -> bool {
    operation matches PatchOperation::Test { path: p, value: v } && p@ == path && same_value(
        v,
        value,
    )
}

/// The operation puts a value at a path.
pub open spec fn adds(operation: PatchOperation, path: Seq<char>, value: PatchValue) -> bool {
    operation matches PatchOperation::Add { path: p, value: v } && p@ == path && same_value(
        v,
        value,
    )
}

/// Two values are the same text or the same fields.
pub open spec fn same_value(a: PatchValue, b: PatchValue) -> bool {
    match (a, b) {
        (PatchValue::Text(x), PatchValue::Text(y)) => x@ == y@,
        (PatchValue::Fields(x), PatchValue::Fields(y)) => x@ == y@,
        _ => false,
    }
}

/// A path is empty or starts with a slash, and each tilde in it is followed by a zero or a one.
pub open spec fn is_path(path: Seq<char>) -> bool {
    path.len() == 0 || (path[0] == '/' && forall|i: int|
        0 <= i < path.len() && #[trigger] path[i] == '~' ==> i + 1 < path.len() && (path[i + 1]
            == '0' || path[i + 1] == '1'))
}

/// A patch tests the existing value, if there is one, and then adds the new one, at the same path.
pub proof fn patches_test_before_they_add(
    path: &str,
    existing: Option<PatchValue>,
    new: PatchValue,
    operations: Result<Vec<PatchOperation>, OperatorError>,
)
    requires
        call_ensures(replace_value, (path, existing, new), operations),
    ensures
        operations is Ok <==> is_path(path@),
        operations is Err ==> operations->Err_0 is Pointer,
        operations is Ok && existing is None ==> operations->Ok_0@.len() == 1 && adds(
            operations->Ok_0@[0],
            path@,
            new,
        ),
        operations is Ok && existing is Some ==> operations->Ok_0@.len() == 2 && tests(
            operations->Ok_0@[0],
            path@,
            existing->0,
        ) && adds(operations->Ok_0@[1], path@, new),
{
    if operations is Ok {
        let list = operations->Ok_0;
        lists_are_seen_whole(list);
        assert(list.deep_view()[0] == list@[0].deep_view());
        if existing is Some {
            assert(list.deep_view()[1] == list@[1].deep_view());
        }
    }
}

/// Replacing a text tests the existing one and adds the new one, both whole.
pub proof fn replaced_texts_are_whole(
    path: &str,
    existing: String,
    new: String,
    operations: Result<Vec<PatchOperation>, OperatorError>,
)
    requires
        call_ensures(patch, (path, existing, new), operations),
    ensures
        operations is Ok <==> is_path(path@),
        operations is Ok ==> {
            let list = operations->Ok_0@;
            &&& list.len() == 2
            &&& list[0] matches PatchOperation::Test { path: tested, value: PatchValue::Text(x) }
            &&& tested@ == path@ && x@ == existing@
            &&& list[1] matches PatchOperation::Add { path: added, value: PatchValue::Text(y) }
            &&& added@ == path@ && y@ == new@
        },
{
    if operations is Ok {
        let list = operations->Ok_0;
        lists_are_seen_whole(list);
        assert(list.deep_view()[0] == list@[0].deep_view());
        assert(list.deep_view()[1] == list@[1].deep_view());
    }
}

/// After any error, an object is looked at again in sixty seconds.
pub proof fn errors_are_retried_in_a_minute(error: ControllerError, action: ReconcileAction)
    requires
        call_ensures(controller_error_policy, (&error,), action),
    ensures
        action == (ReconcileAction::Requeue { secs: 60 }),
{
}

/// What is logged of a reconciliation ends with the whole of its outcome.
pub proof fn outcomes_are_logged_whole(res: Result<&str, &str>, line: String)
    requires
        call_ensures(controller_info, (res,), line),
    ensures
        res is Ok ==> line@ == "reconciled "@ + res->Ok_0@,
        res is Err ==> line@ == "reconcile failed: "@ + res->Err_0@,
{
}

/// An object is called by its name, and by a stand-in only if it has none.
pub proof fn objects_are_called_by_their_name(meta: ObjectMeta, name: String)
    requires
        call_ensures(name_or_default, (&meta,), name),
    ensures
        meta.name is Some ==> name@ == meta.name->0@,
        meta.name is None ==> name@ == "<no name>"@,
{
}

/// Creating an object succeeds if it is created or if the cluster answers that there is a conflict,
/// and only then. The line names kind and name of the object.
pub proof fn conflicts_are_no_errors(
    reply: CreateReply,
    kind: &str,
    name: &str,
    line: Option<String>,
)
    requires
        call_ensures(info_if_exists, (reply, kind, name), line),
    ensures
        line is Some <==> reply == CreateReply::Created || reply == (CreateReply::Rejected {
            code: 409,
        }),
        reply == CreateReply::Created ==> line->0@ == "Create "@ + kind@ + " "@ + name@,
        reply == (CreateReply::Rejected { code: 409 }) ==> line->0@ == kind@ + " "@ + name@
            + " already exists"@,
{
}

/// A mocked error keeps its code, and is worded as the API server words errors of that code.
pub proof fn mocked_errors_keep_their_code(code: u16, response: ErrorResponse)
    requires
        100 <= code <= 999,
        call_ensures(error_response, (code,), response),
    ensures
        response.code == code,
        response.status@ == "Failure"@,
        code == 409 ==> response.message@ == "resource already exists"@ && response.reason@
            == "AlreadyExists"@,
        code == 500 ==> response.message@ == "internal server error"@ && response.reason@
            == "ServerTimeout"@,
        code == 404 ==> response.message@ == "resource not found"@ && response.reason@
            == "NotFound"@,
        code == 400 ==> response.message@ == "bad request"@ && response.reason@ == "BadRequest"@,
        code != 409 && code != 500 && code != 404 && code != 400 ==> response.message@
            == "error with status code "@ + status_code_of(code) && response.reason@ == "Unknown"@,
{
}

/// A mocked reply carries the data as they are, or the JSON of the error of its code.
pub proof fn mocked_replies_carry_what_is_answered(
    response: Result<String, u16>,
    reply: Result<(u16, String), OperatorError>,
    error: ErrorResponse,
)
    requires
        response is Err ==> 100 <= response->Err_0 <= 999 && call_ensures(
            error_response,
            (response->Err_0,),
            error,
        ),
        call_ensures(mock_reply, (response,), reply),
    ensures
        reply is Ok,
        response is Ok ==> reply->Ok_0.0 == 200 && reply->Ok_0.1@ == response->Ok_0@,
        response is Err ==> reply->Ok_0.0 == response->Err_0 && reply->Ok_0.1@
            == json_of_error_response(error.status@, error.message@, error.reason@, error.code),
{
}

/// An error that concerns an object names it in full.
pub proof fn errors_name_what_they_concern(error: OperatorError, message: Option<String>)
    requires
        call_ensures(OperatorError::message, (&error,), message),
    ensures
        error matches OperatorError::NoPoolConfiguration { pool } ==> message is Some && message->0@
            == "MCP "@ + pool@ + " changed, but had no configuration"@,
        error matches OperatorError::NoPoolConfigurationName { pool } ==> message is Some
            && message->0@ == "MCP "@ + pool@ + " changed, but config had no name"@,
        error matches OperatorError::NoImageUrl { config } ==> message is Some && message->0@
            == "MC "@ + config@ + " existed, but had no osImageUrl"@,
        error matches OperatorError::NoJobStatus { job } ==> message is Some && message->0@
            == "Job "@ + job@ + " changed, but had no status"@,
        error is NoPoolName ==> message is Some && message->0@ == "MCP changed, but had no name"@,
        error is NoJobName ==> message is Some && message->0@ == "Job changed, but had no name"@,
        error is ExpiryOutOfRange ==> message is Some && message->0@
            == "`DateTime + TimeDelta` overflowed"@,
        error is NoImagePcrsData ==> message is Some && message->0@
            == "Image PCRs map existed, but had no data"@,
        error is NoImagePcrsFile ==> message is Some && message->0@
            == "Image PCRs data existed, but had no file"@,
        error is NoTrusteeData ==> message is Some && message->0@
            == "ConfigMap trustee-data existed, but had no data"@,
        error is NoReferenceValues ==> message is Some && message->0@
            == "ConfigMap trustee-data existed, but had no reference values"@,
        error is NoDeploymentSpec ==> message is Some && message->0@
            == "Deployment trustee-deployment existed, but had no spec"@,
        error is NoPodSpec ==> message is Some && message->0@
            == "Deployment trustee-deployment existed, but had no pod spec"@,
        error is NoContainers ==> message is Some && message->0@
            == "Deployment trustee-deployment existed, but had no containers"@,
        message is None <==> error is Pointer || error is Reference || error is Json
            || error is Openssl,
{
}

/// A cluster that nothing is said of has no images and no settings.
pub proof fn clusters_start_without_settings(spec: ConfidentialClusterSpec)
    requires
        call_ensures(ConfidentialClusterSpec::default, (), spec),
    ensures
        spec.trustee_image@.len() == 0,
        spec.pcrs_compute_image@.len() == 0,
        spec.register_server_image@.len() == 0,
        spec.public_trustee_addr is None,
        spec.trustee_kbs_port is None,
        spec.register_server_port is None,
{
}

} // verus!
