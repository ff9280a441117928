//! What can go wrong, and what is said of it.
use crate::text::around;
use vstd::prelude::*;

verus! {

/// An error of the operator.
#[derive(Debug)]
pub enum OperatorError {
    /// The config map of image PCRs has no data.
    NoImagePcrsData,
    /// The config map of image PCRs lacks its file.
    NoImagePcrsFile,
    /// The config map of the attestation service has no data.
    NoTrusteeData,
    /// The config map of the attestation service lacks the reference values.
    NoReferenceValues,
    /// The deployment has no spec.
    NoDeploymentSpec,
    /// The deployment has no pod spec.
    NoPodSpec,
    /// The deployment has no containers.
    NoContainers,
    /// A machine config pool has no name.
    NoPoolName,
    /// A machine config pool has no configuration.
    NoPoolConfiguration { pool: String },
    /// The configuration of a machine config pool has no name.
    NoPoolConfigurationName { pool: String },
    /// A machine config has no image URL.
    NoImageUrl { config: String },
    /// A job has no name.
    NoJobName,
    /// A job has no status.
    NoJobStatus { job: String },
    /// A reference value would expire too late to be represented.
    ExpiryOutOfRange,
    /// A patch was to be made at something that is no JSON pointer.
    Pointer(jsonptr::ParseError),
    /// An image was to be pulled by something that is no image reference.
    Reference(oci_client::ParseError),
    /// JSON could not be read or written.
    Json(serde_json::Error),
    /// OpenSSL failed.
    Openssl(openssl::error::ErrorStack),
}

impl OperatorError {
    /// What is said of the error. The errors of outside libraries speak for themselves.
    pub open spec fn spec_message(&self) -> Option<Seq<char>> {
        match self {
            OperatorError::NoImagePcrsData => Some("Image PCRs map existed, but had no data"@),
            OperatorError::NoImagePcrsFile => Some("Image PCRs data existed, but had no file"@),
            OperatorError::NoTrusteeData => Some(
                "ConfigMap trustee-data existed, but had no data"@,
            ),
            OperatorError::NoReferenceValues => Some(
                "ConfigMap trustee-data existed, but had no reference values"@,
            ),
            OperatorError::NoDeploymentSpec => Some(
                "Deployment trustee-deployment existed, but had no spec"@,
            ),
            OperatorError::NoPodSpec => Some(
                "Deployment trustee-deployment existed, but had no pod spec"@,
            ),
            OperatorError::NoContainers => Some(
                "Deployment trustee-deployment existed, but had no containers"@,
            ),
            OperatorError::NoPoolName => Some("MCP changed, but had no name"@),
            OperatorError::NoPoolConfiguration { pool } => Some(
                "MCP "@ + pool@ + " changed, but had no configuration"@,
            ),
            OperatorError::NoPoolConfigurationName { pool } => Some(
                "MCP "@ + pool@ + " changed, but config had no name"@,
            ),
            OperatorError::NoImageUrl { config } => Some(
                "MC "@ + config@ + " existed, but had no osImageUrl"@,
            ),
            OperatorError::NoJobName => Some("Job changed, but had no name"@),
            OperatorError::NoJobStatus { job } => Some(
                "Job "@ + job@ + " changed, but had no status"@,
            ),
            OperatorError::ExpiryOutOfRange => Some("`DateTime + TimeDelta` overflowed"@),
            OperatorError::Pointer(_) => None,
            OperatorError::Reference(_) => None,
            OperatorError::Json(_) => None,
            OperatorError::Openssl(_) => None,
        }
    }

    /// What is said of the error, unless it comes from an outside library.
    pub fn message(&self) -> (message: Option<String>)
        ensures
            message.deep_view() == self.spec_message(),
    {
        let text = match self {
            OperatorError::NoImagePcrsData => "Image PCRs map existed, but had no data".to_owned(),
            OperatorError::NoImagePcrsFile => "Image PCRs data existed, but had no file".to_owned(),
            OperatorError::NoTrusteeData => {
                "ConfigMap trustee-data existed, but had no data".to_owned()
            },
            OperatorError::NoReferenceValues => {
                "ConfigMap trustee-data existed, but had no reference values".to_owned()
            },
            OperatorError::NoDeploymentSpec => {
                "Deployment trustee-deployment existed, but had no spec".to_owned()
            },
            OperatorError::NoPodSpec => {
                "Deployment trustee-deployment existed, but had no pod spec".to_owned()
            },
            OperatorError::NoContainers => {
                "Deployment trustee-deployment existed, but had no containers".to_owned()
            },
            OperatorError::NoPoolName => "MCP changed, but had no name".to_owned(),
            OperatorError::NoPoolConfiguration { pool } => {
                around("MCP ", pool, " changed, but had no configuration")
            },
            OperatorError::NoPoolConfigurationName { pool } => {
                around("MCP ", pool, " changed, but config had no name")
            },
            OperatorError::NoImageUrl { config } => {
                around("MC ", config, " existed, but had no osImageUrl")
            },
            OperatorError::NoJobName => "Job changed, but had no name".to_owned(),
            OperatorError::NoJobStatus { job } => {
                around("Job ", job, " changed, but had no status")
            },
            OperatorError::ExpiryOutOfRange => "`DateTime + TimeDelta` overflowed".to_owned(),
            OperatorError::Pointer(_) => {
                return None;
            },
            OperatorError::Reference(_) => {
                return None;
            },
            OperatorError::Json(_) => {
                return None;
            },
            OperatorError::Openssl(_) => {
                return None;
            },
        };
        Some(text)
    }
}

} // verus!
