//! Client library for a project and cluster management service.
//!
//! - [`value`]: the document tree shared by JSON and YAML documents.
//! - [`codec`]: reading records from, and writing them to, document mappings.
//! - [`kubeconfig`]: the kubeconfig document model, which keeps every entry it
//!   reads, including those it does not name.
//! - [`transcode`]: what holds of reading a document and writing it back.
//! - [`api`]: the remote API's data model.
//! - [`client`]: requests, authentication headers, response statuses and the
//!   stored settings.
//! - [`workflow`]: provisioning a one-off pod, with a bounded poll.
//! - [`local`]: the client's files and the external tools it relies on.
pub mod value;
pub mod codec;
pub mod kubeconfig;
pub mod transcode;
pub mod api;
pub mod client;
pub mod workflow;
pub mod local;
