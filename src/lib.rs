//! A controller for the `RustOperator` resource: the manifests of the objects
//! that each resource owns, its status, and the reconcile state machine that
//! a runtime drives against the cluster.
pub mod controller;
pub mod crd;
pub mod resources;
pub mod text;
