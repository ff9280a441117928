//! Decision logic of an operator that runs a Trustee attestation service for a confidential
//! cluster: which images are approved, which reference values follow from them, and which objects
//! of the cluster all of this runs from.
#![allow(unused_imports)]

pub mod compute_pcrs;
pub mod controller;
pub mod crds;
pub mod error;
pub mod kbs;
pub mod kube_objects;
pub mod laws;
pub mod mock_client;
pub mod ordered;
pub mod outside;
pub mod patch;
pub mod reference_value;
pub mod reference_values;
pub mod rv_store;
pub mod text;
pub mod trustee;
