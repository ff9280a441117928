//! What the controllers of the operator share.
use crate::error::OperatorError;
use crate::kube_objects::{ObjectMeta, OwnerReference};
use crate::text::around;
use vstd::prelude::*;

verus! {

/// What the controllers of reference values work with, apart from the client.
pub struct RvContextData {
    pub owner_reference: OwnerReference,
    pub pcrs_compute_image: String,
}

/// Why a controller could not reconcile an object.
#[derive(Debug)]
pub enum ControllerError {
    /// An error of the operator.
    Operator(OperatorError),
    /// An error of the cluster or of a registry, in its own words.
    Outside(String),
}

/// When an object is to be reconciled again.
#[derive(Debug, Clone, Copy, PartialEq, Eq, Structural)]
pub enum ReconcileAction {
    /// When it changes.
    AwaitChange,
    /// After so many seconds.
    Requeue { secs: u64 },
}

/// After an error, an object is reconciled again in a minute.
pub fn controller_error_policy(_error: &ControllerError) -> (action: ReconcileAction)
    ensures
        action == (ReconcileAction::Requeue { secs: 60 }),
{
    ReconcileAction::Requeue { secs: 60 }
}

/// What is logged of a reconciliation, given the debug text of its outcome.
pub fn controller_info(res: Result<&str, &str>) -> (line: String)
    ensures
        res matches Ok(o) ==> line@ == "reconciled "@ + o@,
        res matches Err(e) ==> line@ == "reconcile failed: "@ + e@,
{
    match res {
        Ok(o) => "reconciled ".to_owned().concat(o),
        Err(e) => "reconcile failed: ".to_owned().concat(e),
    }
}

/// The name that an object is called by in messages.
pub open spec fn display_name(name: Option<Seq<char>>) -> Seq<char> {
    match name {
        Some(name) => name,
        None => "<no name>"@,
    }
}

/// The name of an object, or a stand-in if it has none.
pub fn name_or_default(meta: &ObjectMeta) -> (name: String)
    ensures
        name@ == display_name(meta.name.deep_view()),
{
    match &meta.name {
        Some(name) => name.clone(),
        None => "<no name>".to_owned(),
    }
}

/// What the cluster replied to a request to create an object.
#[derive(Debug, Clone, Copy, PartialEq, Eq, Structural)]
pub enum CreateReply {
    /// The object was created.
    Created,
    /// The API server rejected the request with a status code.
    Rejected { code: u16 },
    /// The request failed otherwise.
    Failed,
}

/// What is logged of a reply that leaves the object in place, be it new or already there. Any
/// other reply is an error, and there is nothing to log.
pub fn info_if_exists(reply: CreateReply, resource_type: &str, resource_name: &str) -> (line:
    Option<String>)
    ensures
        match reply {
            CreateReply::Created => line.deep_view() == Some(
                "Create "@ + resource_type@ + " "@ + resource_name@,
            ),
            CreateReply::Rejected { code: 409 } => line.deep_view() == Some(
                resource_type@ + " "@ + resource_name@ + " already exists"@,
            ),
            _ => line is None,
        },
{
    match reply {
        CreateReply::Created => Some(
            around("Create ", resource_type, " ").concat(resource_name),
        ),
        CreateReply::Rejected { code: 409 } => Some(
            around(resource_type, " ", resource_name).concat(" already exists"),
        ),
        _ => None,
    }
}

} // verus!
