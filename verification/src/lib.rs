//! GitHub Actions maintenance primitives.
//!
//! Actions are pinned to commits and moved to their latest versions, dependencies of
//! Cargo manifests are moved to their latest versions, workflows are held to a baseline
//! policy, and releases are made out of conventional commits. The library computes:
//! what it needs of a service it asks for in a request, and what it needs of the file
//! system it is handed.

pub mod api;
pub mod arguments;
pub mod call_laws;
pub mod calls;
pub mod cargo;
pub mod cargo_laws;
pub mod change_laws;
pub mod cli;
pub mod cli_laws;
pub mod conventional;
pub mod conventional_laws;
pub mod crates_io;
pub mod github;
pub mod glob;
pub mod input_env;
pub mod job_laws;
pub mod manifest;
pub mod member_laws;
pub mod message_laws;
pub mod model;
pub mod path_laws;
pub mod paths;
pub mod pattern;
pub mod pinning;
pub mod pinning_laws;
pub mod policy;
pub mod policy_laws;
pub mod publish_laws;
pub mod release;
pub mod release_flow_laws;
pub mod release_laws;
pub mod remote;
pub mod report;
pub mod report_laws;
pub mod requests;
pub mod retry_laws;
pub mod rewrite_laws;
pub mod run_laws;
pub mod scan_laws;
pub mod script_laws;
pub mod scripts;
pub mod text;
pub mod text_laws;
pub mod transport;
pub mod update;
pub mod update_laws;
pub mod version;
pub mod versioning;
pub mod workflow;
pub mod workflow_laws;

pub use cargo::{CargoDependencyEntry, CargoUpdateOptions, CargoUpdateReport, CargoUpdater};
pub use conventional::BumpLevel;
pub use crates_io::CratesIoClient;
pub use github::GitHubClient;
pub use model::{FileUpdate, PinChange, PinReport, UpdateChange, UpdateChangeKind, WorkflowAction};
pub use pinning::{PinMode, PinOptions, WorkflowPinner};
pub use policy::{PolicyOptions, PolicyReport, PolicyScanner};
pub use release::{
    ReleaseOptions, ReleaseOutcome, ReleasePhase, ReleasePublisher, ReleaseReport, TagStyle,
};
pub use remote::{PullRequestOptions, PullRequestResult, RemoteUpdatePublisher};
pub use update::{UpdateMode, UpdateOptions, UpdateReport, VersionEntry, WorkflowUpdater};
