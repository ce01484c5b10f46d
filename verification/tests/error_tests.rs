use semantic_release_cargo::{
    CargoTomlError, DependencyType, Error, TomlError, UrlError, WorkspaceError, WriteReleaseError,
};

#[test]
fn error_format_includes_stderr() {
    // Create a path
    let path = "Cargo.toml".to_string();

    // Create an error with stderr message by using the public constructor
    let error = Error::CargoPublishStatus {
        status: "exit status: 101".to_string(),
        manifest_path: path,
        stderr: "Error: failed to publish\nCause: package already exists on registry".to_string(),
    };

    // Check that the formatted error message includes the stderr content
    let error_string = error.message();
    assert!(error_string.contains("failed to publish"), "Error should contain stderr content");
    assert!(
        error_string.contains("package already exists"),
        "Error should contain all stderr content"
    );
    assert_eq!(
        error_string,
        "\"cargo publish\" exited with a failure for Cargo.toml: exit status: 101\n\
         Error: failed to publish\nCause: package already exists on registry"
    );
}

#[test]
fn error_messages_name_what_went_wrong() {
    let text = |s: &str| s.to_string();
    assert_eq!(
        Error::workspace_error(text("boom"), text("a/Cargo.toml")).message(),
        "Unable to parse the workspace structure starting at a/Cargo.toml"
    );
    assert_eq!(
        Error::WorkspaceCycles { crate1: text("a"), crate2: text("b") }.message(),
        "Workspace has at least one cycle that includes as least a and b"
    );
    assert_eq!(
        Error::verify_error(text("no token")).message(),
        "Conditions for a release are not satisfied: no token"
    );
    assert_eq!(
        Error::bad_dependency("app", "rand", DependencyType::Normal).message(),
        "Dependency of app on rand prevents publication of app"
    );
    assert_eq!(
        Error::bad_dependency("app", "cc", DependencyType::Build).message(),
        "Build dependency of app on cc prevents publication of app"
    );
    assert_eq!(
        Error::bad_dependency("app", "rand", DependencyType::Dev).message(),
        "Dev dependency of app on rand prevents publication of app"
    );
    assert_eq!(
        Error::file_read_error(text("denied"), "Cargo.toml").message(),
        "Unable to read file Cargo.toml"
    );
    assert_eq!(
        Error::file_write_error(text("denied"), "Cargo.toml").message(),
        "Unable to write file Cargo.toml"
    );
    assert_eq!(
        Error::toml_error(text("expected `]`"), "Cargo.toml").message(),
        "Unable to parse Cargo.toml as a TOML file"
    );
    assert_eq!(
        CargoTomlError::no_table("package").into_error("Cargo.toml").message(),
        "Unexpected contents of Cargo.toml"
    );
    assert_eq!(
        Error::cargo_publish(text("not found"), "Cargo.toml").message(),
        "Unable to run \"cargo publish\" for Cargo.toml"
    );
    assert_eq!(
        Error::url_parse_error(url::ParseError::EmptyHost).message(),
        "Unable to parse url for displaying release record."
    );
    assert_eq!(
        Error::write_release_error(text("broken pipe"), "app").message(),
        "Unable to write the release record for app as JSON."
    );
    assert_eq!(
        Error::CargoLockfileUpdate { reason: text("why"), package_name: text("app") }.message(),
        "Unable to update Cargo lockfile"
    );
}

#[test]
fn manifest_error_messages_name_the_key() {
    assert_eq!(
        CargoTomlError::no_table("package").message(),
        "Unable to locate expected table package"
    );
    assert_eq!(
        CargoTomlError::no_value("version").message(),
        "Unable to located expected value version"
    );
    assert_eq!(
        CargoTomlError::set_version("dep1", "2.0.0").message(),
        "Unable to set the version for dep1 to 2.0.0"
    );
}

#[test]
fn error_details_have_messages_of_their_own() {
    let workspace = WorkspaceError {
        metadata_error: "boom".to_string(),
        manifest_path: "Cargo.toml".to_string(),
    };
    assert_eq!(
        workspace.message(),
        "Unable to parse the workspace structure starting at Cargo.toml"
    );
    let toml = TomlError { inner: "bad".to_string(), path: "x.toml".to_string() };
    assert_eq!(toml.message(), "Unable to parse x.toml as a TOML file");
    let url = UrlError { inner: url::ParseError::RelativeUrlWithoutBase };
    assert_eq!(url.message(), "Unable to parse url for displaying release record.");
    let write = WriteReleaseError { inner: "bad".to_string(), main_crate: "app".to_string() };
    assert_eq!(write.message(), "Unable to write the release record for app as JSON.");
}

#[test]
fn errors_keep_what_they_are_given() {
    match Error::cargo_publish("not found".to_string(), "a/Cargo.toml") {
        Error::CargoPublish { inner, manifest_path } => {
            assert_eq!(inner, "not found");
            assert_eq!(manifest_path, "a/Cargo.toml");
        }
        other => panic!("unexpected error {:?}", other),
    }
    match Error::file_write_error("denied".to_string(), "b/Cargo.toml") {
        Error::FileWriteError { inner, path } => {
            assert_eq!(inner, "denied");
            assert_eq!(path, "b/Cargo.toml");
        }
        other => panic!("unexpected error {:?}", other),
    }
    match Error::write_release_error("closed".to_string(), "app") {
        Error::WriteReleaseError(error) => {
            assert_eq!(error.inner, "closed");
            assert_eq!(error.main_crate, "app");
        }
        other => panic!("unexpected error {:?}", other),
    }
    match Error::url_parse_error(url::ParseError::EmptyHost) {
        Error::UrlError(error) => assert_eq!(error.inner, url::ParseError::EmptyHost),
        other => panic!("unexpected error {:?}", other),
    }
}
