//! Release automation for a cargo workspace: checks that a workspace can be
//! released, rewrites version numbers across its manifests and decides the
//! order in which its packages are published.
//!
//! The library works on plain values. The caller resolves the workspace into
//! a [`Graph`], reads the manifests, runs `cargo publish` and writes the
//! results; the library decides what is to be checked, changed and run.

pub mod cli;
pub mod error;
pub mod graph;
pub mod idempotence;
pub mod itertools;
pub mod lockfile;
pub mod logger;
pub mod manifest;
pub mod metadata;
pub mod order;
pub mod prepare;
pub mod publish;
pub mod publishable;
pub mod reach;
pub mod release;
pub mod text;
pub mod toml;
pub mod verify;

pub use cli::{group_features, parse_key_val};
pub use error::{CargoTomlError, Error, TomlError, UrlError, WorkspaceError, WriteReleaseError};
pub use graph::{DependencyLink, DependencyType, Graph, Package, PackagePublish, PackageSource};
pub use itertools::{into_group_map, Itertools};
pub use lockfile::set_lockfile_self_describing_metadata;
pub use logger::{Level, LevelFilter, LogDestination, LogWriter, Logger, LoggerBuilder};
pub use manifest::{read_cargo_toml, try_write_cargo_toml, write_cargo_toml};
pub use metadata::{build_graph, LinkRecord, PackageRecord, SourceRecord};
pub use order::{find_cycle, publish_order};
pub use prepare::prepare;
pub use publish::{
    list_packages, list_packages_with_arguments, publish, PackageFeatures, PublishArgs,
    PublishCommand, PublishOutcome, PublishRun,
};
pub use publishable::{link_is_publishable, package_is_publishable};
pub use release::Release;
pub use verify::{
    alternate_token_set, check_registry_token, check_workspace, manifests_to_read,
    verify_conditions, verify_conditions_with_alternate, CargoConfig, ManifestFile,
    RegistryConfig, Report,
};
