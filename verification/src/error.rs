//! The errors of the release steps.

use vstd::prelude::*;
use vstd::string::StringExecFns;
use crate::graph::DependencyType;
use crate::text::{from_utf8_lossy, utf8_lossy};

verus! {

/// The workspace could not be resolved into a dependency graph.
#[derive(Debug)]
pub struct WorkspaceError {
    /// What went wrong while the workspace was resolved.
    pub metadata_error: String,
    /// The manifest at which resolution started.
    pub manifest_path: String,
}

/// A file is not a TOML document.
#[derive(Debug)]
pub struct TomlError {
    /// What the parser found.
    pub inner: String,
    /// The path of the file.
    pub path: String,
}

/// The URL of the release record could not be made.
#[derive(Debug)]
pub struct UrlError {
    /// What the URL parser found.
    pub inner: url::ParseError,
}

/// The release record could not be written as JSON.
#[derive(Debug)]
pub struct WriteReleaseError {
    /// What went wrong while the record was written.
    pub inner: String,
    /// The main package of the release.
    pub main_crate: String,
}

/// What is wrong with the contents of a manifest.
#[derive(Debug)]
pub enum CargoTomlError {
    /// The manifest lacks a table.
    NoTable {
        /// The name of the missing table.
        table_name: String,
    },
    /// The manifest lacks a value.
    NoValue {
        /// The name of the missing value.
        value_name: String,
    },
    /// The version of a package or of a dependency could not be set.
    SetVersion {
        /// The name of the package or dependency.
        name: String,
        /// The version that was to be set.
        version: String,
    },
}

/// The error type of the release steps.
#[derive(Debug)]
#[allow(inconsistent_fields)]
pub enum Error {
    /// The workspace could not be resolved into a dependency graph.
    WorkspaceError(WorkspaceError),
    /// Two packages of the workspace depend on each other.
    WorkspaceCycles {
        /// The first package of the cycle.
        crate1: String,
        /// The second package of the cycle.
        crate2: String,
    },
    /// A condition for a release is not met.
    VerifyError {
        /// Why the conditions are not met.
        reason: String,
    },
    /// A dependency keeps a package from being published.
    BadDependency {
        /// The name of the package that cannot be published.
        from: String,
        /// The name of the package that it depends on.
        to: String,
        /// The type of the dependency.
        typ: DependencyType,
    },
    /// A file could not be read.
    FileReadError {
        /// What went wrong.
        inner: String,
        /// The path of the file.
        path: String,
    },
    /// A file could not be written.
    FileWriteError {
        /// What went wrong.
        inner: String,
        /// The path of the file.
        path: String,
    },
    /// A file is not a TOML document.
    TomlError(TomlError),
    /// A manifest does not hold what it should.
    CargoTomlError {
        /// What is wrong with the manifest.
        inner: CargoTomlError,
        /// The path of the manifest.
        manifest_path: String,
    },
    /// `cargo publish` could not be run.
    CargoPublish {
        /// What went wrong.
        inner: String,
        /// The manifest of the package that was to be published.
        manifest_path: String,
    },
    /// `cargo publish` ran and failed.
    CargoPublishStatus {
        /// The exit status of `cargo publish`.
        status: String,
        /// The manifest of the package that was to be published.
        manifest_path: String,
        /// What `cargo publish` wrote to its standard error.
        stderr: String,
    },
    /// The URL of the release record could not be made.
    UrlError(UrlError),
    /// The release record could not be written as JSON.
    WriteReleaseError(WriteReleaseError),
    /// The lockfile could not be brought up to date.
    CargoLockfileUpdate {
        /// Why the update failed.
        reason: String,
        /// The package whose record was to be updated.
        package_name: String,
    },
}

impl WorkspaceError {
    /// The text of the error.
    pub open spec fn message_spec(self) -> Seq<char> {
        "Unable to parse the workspace structure starting at "@ + self.manifest_path@
    }

    /// The text of the error.
    pub fn message(&self) -> (text: String)
        ensures
            text@ == self.message_spec(),
    {
        let mut text = String::from_str("Unable to parse the workspace structure starting at ");
        text.append(self.manifest_path.as_str());
        text
    }
}

impl TomlError {
    /// The text of the error.
    pub open spec fn message_spec(self) -> Seq<char> {
        "Unable to parse "@ + self.path@ + " as a TOML file"@
    }

    /// The text of the error.
    pub fn message(&self) -> (text: String)
        ensures
            text@ == self.message_spec(),
    {
        let mut text = String::from_str("Unable to parse ");
        text.append(self.path.as_str());
        text.append(" as a TOML file");
        text
    }
}

impl UrlError {
    /// The text of the error.
    pub open spec fn message_spec(self) -> Seq<char> {
        "Unable to parse url for displaying release record."@
    }

    /// The text of the error.
    pub fn message(&self) -> (text: String)
        ensures
            text@ == self.message_spec(),
    {
        String::from_str("Unable to parse url for displaying release record.")
    }
}

impl WriteReleaseError {
    /// The text of the error.
    pub open spec fn message_spec(self) -> Seq<char> {
        "Unable to write the release record for "@ + self.main_crate@ + " as JSON."@
    }

    /// The text of the error.
    pub fn message(&self) -> (text: String)
        ensures
            text@ == self.message_spec(),
    {
        let mut text = String::from_str("Unable to write the release record for ");
        text.append(self.main_crate.as_str());
        text.append(" as JSON.");
        text
    }
}

impl CargoTomlError {
    /// The error for a manifest without the table `table`.
    pub fn no_table(table: &str) -> (error: Self)
        ensures
            error.is_no_table(table@),
    {
        CargoTomlError::NoTable { table_name: table.to_owned() }
    }

    /// The error for a manifest without the value `value`.
    pub fn no_value(value: &str) -> (error: Self)
        ensures
            error.is_no_value(value@),
    {
        CargoTomlError::NoValue { value_name: value.to_owned() }
    }

    /// The error for a failed attempt to set the version of `name` to
    /// `version`.
    pub fn set_version(name: &str, version: &str) -> (error: Self)
        ensures
            error.is_set_version(name@, version@),
    {
        CargoTomlError::SetVersion { name: name.to_owned(), version: version.to_owned() }
    }

    /// Says in which manifest the error was found.
    pub fn into_error(self, path: &str) -> (error: Error)
        ensures
            error matches Error::CargoTomlError { inner, manifest_path } && inner == self
                && manifest_path@ == path@,
    {
        Error::CargoTomlError { inner: self, manifest_path: path.to_owned() }
    }

    /// The error says that the version of `name` could not be set to
    /// `version`.
    pub open spec fn is_set_version(self, name: Seq<char>, version: Seq<char>) -> bool {
        self matches CargoTomlError::SetVersion { name: n, version: v } && n@ == name && v@
            == version
    }

    /// The error says that the value `value` is missing.
    pub open spec fn is_no_value(self, value: Seq<char>) -> bool {
        self matches CargoTomlError::NoValue { value_name } && value_name@ == value
    }

    /// The error says that the table `table` is missing.
    pub open spec fn is_no_table(self, table: Seq<char>) -> bool {
        self matches CargoTomlError::NoTable { table_name } && table_name@ == table
    }

    /// The text of the error.
    pub open spec fn message_spec(self) -> Seq<char> {
        match self {
            CargoTomlError::NoTable { table_name } => "Unable to locate expected table "@
                + table_name@,
            CargoTomlError::NoValue { value_name } => "Unable to located expected value "@
                + value_name@,
            CargoTomlError::SetVersion { name, version } => "Unable to set the version for "@
                + name@ + " to "@ + version@,
        }
    }

    /// The text of the error.
    pub fn message(&self) -> (text: String)
        ensures
            text@ == self.message_spec(),
    {
        match self {
            CargoTomlError::NoTable { table_name } => {
                let mut text = String::from_str("Unable to locate expected table ");
                text.append(table_name.as_str());
                text
            },
            CargoTomlError::NoValue { value_name } => {
                let mut text = String::from_str("Unable to located expected value ");
                text.append(value_name.as_str());
                text
            },
            CargoTomlError::SetVersion { name, version } => {
                let mut text = String::from_str("Unable to set the version for ");
                text.append(name.as_str());
                text.append(" to ");
                text.append(version.as_str());
                text
            },
        }
    }
}

impl Error {
    /// The error for a workspace that could not be resolved, starting at
    /// `manifest_path`, for the reason `metadata_error`.
    pub fn workspace_error(metadata_error: String, manifest_path: String) -> (error: Error)
        ensures
            error == Error::WorkspaceError(WorkspaceError { metadata_error, manifest_path }),
    {
        Error::WorkspaceError(WorkspaceError { metadata_error, manifest_path })
    }

    /// The error for a condition that is not met.
    pub fn verify_error(reason: String) -> (error: Error)
        ensures
            error == (Error::VerifyError { reason }),
    {
        Error::VerifyError { reason }
    }

    /// The error for a dependency of type `typ` of the package `from` on the
    /// package `to` that keeps `from` from being published.
    pub fn bad_dependency(from: &str, to: &str, typ: DependencyType) -> (error: Error)
        ensures
            error.is_bad_dependency(from@, to@, typ),
    {
        Error::BadDependency { from: from.to_owned(), to: to.to_owned(), typ }
    }

    /// The error for a file that could not be read.
    pub fn file_read_error(inner: String, path: &str) -> (error: Error)
        ensures
            error matches Error::FileReadError { inner: i, path: p } && i == inner && p@ == path@,
    {
        Error::FileReadError { inner, path: path.to_owned() }
    }

    /// The error for a file that could not be written.
    pub fn file_write_error(inner: String, path: &str) -> (error: Error)
        ensures
            error matches Error::FileWriteError { inner: i, path: p } && i == inner && p@
                == path@,
    {
        Error::FileWriteError { inner, path: path.to_owned() }
    }

    /// The error for a file that is not a TOML document.
    pub fn toml_error(inner: String, path: &str) -> (error: Error)
        ensures
            error matches Error::TomlError(e) && e.inner == inner && e.path@ == path@,
    {
        Error::TomlError(TomlError { inner, path: path.to_owned() })
    }

    /// The error for a `cargo publish` that could not be run.
    pub fn cargo_publish(inner: String, manifest_path: &str) -> (error: Error)
        ensures
            error matches Error::CargoPublish { inner: i, manifest_path: p } && i == inner && p@
                == manifest_path@,
    {
        Error::CargoPublish { inner, manifest_path: manifest_path.to_owned() }
    }

    /// The error for a `cargo publish` that ran and failed with the exit
    /// status `status`, having written `stderr` to its standard error.
    pub fn cargo_publish_status(status: String, manifest_path: &str, stderr: &Vec<u8>) -> (error:
        Error)
        ensures
            error matches Error::CargoPublishStatus { status: s, manifest_path: p, stderr: e }
                && s == status && p@ == manifest_path@ && e@ == utf8_lossy(stderr@),
    {
        Error::CargoPublishStatus {
            status,
            manifest_path: manifest_path.to_owned(),
            stderr: from_utf8_lossy(stderr),
        }
    }

    /// The error for a URL that could not be made.
    pub fn url_parse_error(inner: url::ParseError) -> (error: Error)
        ensures
            error == Error::UrlError(UrlError { inner }),
    {
        Error::UrlError(UrlError { inner })
    }

    /// The error for a release record that could not be written.
    pub fn write_release_error(inner: String, main_crate: &str) -> (error: Error)
        ensures
            error matches Error::WriteReleaseError(e) && e.inner == inner && e.main_crate@
                == main_crate@,
    {
        Error::WriteReleaseError(WriteReleaseError { inner, main_crate: main_crate.to_owned() })
    }

    /// The error says that a dependency of type `typ` of the package `from`
    /// on the package `to` keeps `from` from being published.
    pub open spec fn is_bad_dependency(
        self,
        from: Seq<char>,
        to: Seq<char>,
        typ: DependencyType,
    ) -> bool {
        self matches Error::BadDependency { from: f, to: t, typ: k } && f@ == from && t@ == to
            && k == typ
    }

    /// The text of the error.
    pub open spec fn message_spec(self) -> Seq<char> {
        match self {
            Error::WorkspaceError(inner) => inner.message_spec(),
            Error::WorkspaceCycles { crate1, crate2 } =>
                "Workspace has at least one cycle that includes as least "@ + crate1@ + " and "@
                    + crate2@,
            Error::VerifyError { reason } => "Conditions for a release are not satisfied: "@
                + reason@,
            Error::BadDependency { from, to, typ } => typ.label_spec() + " of "@ + from@
                + " on "@ + to@ + " prevents publication of "@ + from@,
            Error::FileReadError { inner, path } => "Unable to read file "@ + path@,
            Error::FileWriteError { inner, path } => "Unable to write file "@ + path@,
            Error::TomlError(inner) => inner.message_spec(),
            Error::CargoTomlError { inner, manifest_path } => "Unexpected contents of "@
                + manifest_path@,
            Error::CargoPublish { inner, manifest_path } =>
                "Unable to run \"cargo publish\" for "@ + manifest_path@,
            Error::CargoPublishStatus { status, manifest_path, stderr } =>
                "\"cargo publish\" exited with a failure for "@ + manifest_path@ + ": "@ + status@
                    + "\n"@ + stderr@,
            Error::UrlError(inner) => inner.message_spec(),
            Error::WriteReleaseError(inner) => inner.message_spec(),
            Error::CargoLockfileUpdate { reason, package_name } =>
                "Unable to update Cargo lockfile"@,
        }
    }

    /// The text of the error.
    pub fn message(&self) -> (text: String)
        ensures
            text@ == self.message_spec(),
    {
        match self {
            Error::WorkspaceError(inner) => inner.message(),
            Error::WorkspaceCycles { crate1, crate2 } => {
                let mut text = String::from_str(
                    "Workspace has at least one cycle that includes as least ",
                );
                text.append(crate1.as_str());
                text.append(" and ");
                text.append(crate2.as_str());
                text
            },
            Error::VerifyError { reason } => {
                let mut text = String::from_str("Conditions for a release are not satisfied: ");
                text.append(reason.as_str());
                text
            },
            Error::BadDependency { from, to, typ } => {
                let mut text = String::from_str(typ.label());
                text.append(" of ");
                text.append(from.as_str());
                text.append(" on ");
                text.append(to.as_str());
                text.append(" prevents publication of ");
                text.append(from.as_str());
                text
            },
            Error::FileReadError { inner, path } => {
                let mut text = String::from_str("Unable to read file ");
                text.append(path.as_str());
                text
            },
            Error::FileWriteError { inner, path } => {
                let mut text = String::from_str("Unable to write file ");
                text.append(path.as_str());
                text
            },
            Error::TomlError(inner) => inner.message(),
            Error::CargoTomlError { inner, manifest_path } => {
                let mut text = String::from_str("Unexpected contents of ");
                text.append(manifest_path.as_str());
                text
            },
            Error::CargoPublish { inner, manifest_path } => {
                let mut text = String::from_str("Unable to run \"cargo publish\" for ");
                text.append(manifest_path.as_str());
                text
            },
            Error::CargoPublishStatus { status, manifest_path, stderr } => {
                let mut text = String::from_str("\"cargo publish\" exited with a failure for ");
                text.append(manifest_path.as_str());
                text.append(": ");
                text.append(status.as_str());
                text.append("\n");
                text.append(stderr.as_str());
                text
            },
            Error::UrlError(inner) => inner.message(),
            Error::WriteReleaseError(inner) => inner.message(),
            Error::CargoLockfileUpdate { reason, package_name } => String::from_str(
                "Unable to update Cargo lockfile",
            ),
        }
    }
}

} // verus!
