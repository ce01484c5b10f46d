use semantic_release_cargo::manifest::{set_dependencies_version, set_package_version};
use semantic_release_cargo::{
    prepare, read_cargo_toml, try_write_cargo_toml, set_lockfile_self_describing_metadata, write_cargo_toml,
    CargoTomlError, DependencyLink, DependencyType, Error, Graph, Package, PackagePublish,
    PackageSource,
};
use toml_edit::{DocumentMut, Table};

/// A workspace as the tests see it: the graph, and the text of the manifest
/// of each package.
struct Workspace {
    graph: Graph,
    manifests: Vec<String>,
}

fn member(name: &str, dir: &str) -> Package {
    Package {
        id: format!("{} 0.1.0 (path+file:///workspace/{})", name, dir),
        name: name.to_string(),
        version: "0.1.0".to_string(),
        manifest_path: if dir.is_empty() {
            "/workspace/Cargo.toml".to_string()
        } else {
            format!("/workspace/{}/Cargo.toml", dir)
        },
        workspace_path: dir.to_string(),
        source: PackageSource::Workspace,
        publish: PackagePublish::Unrestricted,
    }
}

fn link(
    from: usize,
    to: usize,
    kind: DependencyType,
    dev_only: bool,
    has_version_req: bool,
    dep_name: &str,
) -> DependencyLink {
    DependencyLink { from, to, kind, dev_only, has_version_req, dep_name: dep_name.to_string() }
}

fn leaf_manifest(name: &str) -> String {
    format!("[package]\nname = \"{}\"\nversion = \"0.1.0\"\nedition = \"2018\"\n", name)
}

fn workspace_basic() -> Workspace {
    let mut graph = Graph::new();
    graph.add_package(member("basic", "")).expect("new package");
    Workspace { graph, manifests: vec![leaf_manifest("basic")] }
}

fn workspace_with(root_name: &str, root_manifest: &str, links: Vec<DependencyLink>) -> Workspace {
    let mut graph = Graph::new();
    graph.add_package(member(root_name, "")).expect("new package");
    graph.add_package(member("dep1", "dep1")).expect("new package");
    graph.add_package(member("build1", "build1")).expect("new package");
    graph.add_package(member("dev1", "dev1")).expect("new package");
    for l in links {
        assert!(graph.add_link(l));
    }
    Workspace {
        graph,
        manifests: vec![
            root_manifest.to_string(),
            leaf_manifest("dep1"),
            leaf_manifest("build1"),
            leaf_manifest("dev1"),
        ],
    }
}

fn workspace_dependencies() -> Workspace {
    workspace_with(
        "dependencies",
        "[package]\nname = \"dependencies\"\nversion = \"0.1.0\"\nedition = \"2018\"\n\n\
         [workspace]\nmembers = [\"dep1\", \"build1\"]\n\n\
         [dependencies]\ndep1 = { path = \"dep1\" }\n\n\
         [build-dependencies]\nbuild1 = { path = \"build1\" }\n",
        vec![
            link(0, 1, DependencyType::Normal, false, false, "dep1"),
            link(0, 2, DependencyType::Build, false, false, "build1"),
        ],
    )
}

/// Runs the preparation on every manifest of the workspace and returns the
/// new texts.
fn prepare_all(workspace: &Workspace, version: &str) -> Result<Vec<String>, Error> {
    let mut written = Vec::new();
    for index in 0..workspace.graph.package_count() {
        let pkg = workspace.graph.package(index);
        let mut cargo = read_cargo_toml(&workspace.manifests[index], &pkg.manifest_path)?;
        prepare(&workspace.graph, index, &mut cargo, version)?;
        written.push(write_cargo_toml(&cargo));
    }
    Ok(written)
}

fn get_toml_document(text: &str) -> DocumentMut {
    text.parse().expect("Couldn't parse toml file")
}

fn package_version(text: &str) -> String {
    let doc = get_toml_document(text);
    doc["package"]["version"].as_str().expect("version not a string").to_string()
}

fn get_dep_version<'a>(table: &'a Table, dep_table: &str, dep: &str) -> &'a str {
    get_sub_table(table, dep_table)
        .get(dep)
        .unwrap_or_else(|| panic!("no {} dependency item", dep))
        .as_table_like()
        .unwrap_or_else(|| panic!("no {} dependency table-like", dep))
        .get("version")
        .expect("no version item")
        .as_value()
        .expect("no version value")
        .as_str()
        .expect("version not a string")
}

fn get_sub_table<'a>(table: &'a Table, sub: &str) -> &'a Table {
    table[sub].as_table().unwrap_or_else(|| panic!("no {} table", sub))
}

#[test]
fn prepare_basic() {
    let workspace = workspace_basic();

    let written = prepare_all(&workspace, "2.0.0").expect("prepare failed");

    assert_eq!(package_version(&written[0]), "2.0.0");
}

#[test]
fn prepare_with_depedencies() {
    let workspace = workspace_dependencies();

    let written = prepare_all(&workspace, "2.0.0").expect("prepare failed");

    for text in &written {
        assert_eq!(package_version(text), "2.0.0");
    }
    let cargo_toml = get_toml_document(&written[0]);
    let root = cargo_toml.as_table();
    assert_eq!(get_dep_version(root, "dependencies", "dep1"), "2.0.0");
    assert_eq!(get_dep_version(root, "build-dependencies", "build1"), "2.0.0");
}

#[test]
fn prepare_with_dependencies_with_explicit_version() {
    let workspace = workspace_with(
        "dependencies_with_explicit_version",
        "[package]\nname = \"dependencies_with_explicit_version\"\nversion = \"0.1.0\"\n\n\
         [dependencies]\ndep1 = { path = \"dep1\", version = \"0.1.0\" }\n\n\
         [build-dependencies]\nbuild1 = { path = \"build1\", version = \"0.1.0\" }\n\n\
         [dev-dependencies]\ndev1 = { path = \"dev1\", version = \"0.1.0\" }\n",
        vec![
            link(0, 1, DependencyType::Normal, false, true, "dep1"),
            link(0, 2, DependencyType::Build, false, true, "build1"),
            link(0, 3, DependencyType::Dev, true, true, "dev1"),
        ],
    );

    let written = prepare_all(&workspace, "2.0.0").expect("prepare failed");

    for text in &written {
        assert_eq!(package_version(text), "2.0.0");
    }
    let cargo_toml = get_toml_document(&written[0]);
    let root = cargo_toml.as_table();
    assert_eq!(get_dep_version(root, "dependencies", "dep1"), "2.0.0");
    assert_eq!(get_dep_version(root, "build-dependencies", "build1"), "2.0.0");
    assert_eq!(get_dep_version(root, "dev-dependencies", "dev1"), "2.0.0")
}

#[test]
fn prepare_with_dependencies_with_aliased_package_names() {
    let workspace = workspace_with(
        "dependencies_with_aliased_pkg",
        "[package]\nname = \"dependencies_with_aliased_pkg\"\nversion = \"0.1.0\"\n\n\
         [dependencies]\ndep_one = { path = \"dep1\", package = \"dep1\" }\n\n\
         [build-dependencies]\nbuild_one = { path = \"build1\", package = \"build1\" }\n",
        vec![
            link(0, 1, DependencyType::Normal, false, false, "dep_one"),
            link(0, 2, DependencyType::Build, false, false, "build_one"),
        ],
    );

    let written = prepare_all(&workspace, "2.0.0").expect("prepare failed");

    for text in &written {
        assert_eq!(package_version(text), "2.0.0");
    }
    let cargo_toml = get_toml_document(&written[0]);
    let root = cargo_toml.as_table();
    assert_eq!(get_dep_version(root, "dependencies", "dep_one"), "2.0.0");
    assert_eq!(get_dep_version(root, "build-dependencies", "build_one"), "2.0.0");
}

#[test]
fn prepare_with_depedencies_from_alternate_registry() {
    let mut workspace = workspace_with(
        "dependencies_alt_registry",
        "[package]\nname = \"dependencies_alt_registry\"\nversion = \"0.1.0\"\n\
         publish = [\"test\"]\n\n\
         [dependencies]\ndep1 = { path = \"dep1\", registry = \"test\" }\n\n\
         [build-dependencies]\nbuild1 = { path = \"build1\", registry = \"test\" }\n",
        vec![
            link(0, 1, DependencyType::Normal, false, false, "dep1"),
            link(0, 2, DependencyType::Build, false, false, "build1"),
        ],
    );
    workspace.manifests[1] =
        "[package]\nname = \"dep1\"\nversion = \"0.1.0\"\npublish = [\"test\"]\n".to_string();

    let written = prepare_all(&workspace, "2.0.0").expect("prepare failed");

    for text in &written {
        assert_eq!(package_version(text), "2.0.0");
    }
    let cargo_toml = get_toml_document(&written[0]);
    let root = cargo_toml.as_table();
    assert_eq!(get_dep_version(root, "dependencies", "dep1"), "2.0.0");
    assert_eq!(get_dep_version(root, "build-dependencies", "build1"), "2.0.0");
}

#[test]
fn prepare_with_target_dependency() {
    let workspace = workspace_with(
        "target_dep",
        "[package]\nname = \"target_dep\"\nversion = \"0.1.0\"\n\n\
         [target.'cfg(unix)'.dependencies]\ndep1 = { path = \"dep1\" }\n",
        vec![link(0, 1, DependencyType::Normal, false, false, "dep1")],
    );

    let written = prepare_all(&workspace, "2.0.0").expect("prepare failed");

    for text in &written {
        assert_eq!(package_version(text), "2.0.0");
    }
    let cargo_toml = get_toml_document(&written[0]);
    let root = cargo_toml.as_table();
    let target = get_sub_table(root, "target");
    let cfg_unix = get_sub_table(target, "cfg(unix)");
    assert_eq!(get_dep_version(cfg_unix, "dependencies", "dep1"), "2.0.0");
}

#[test]
fn prepare_keeps_the_rest_of_the_manifest() {
    let workspace = workspace_dependencies();

    let written = prepare_all(&workspace, "2.0.0").expect("prepare failed");

    assert_eq!(
        written[0],
        "[package]\nname = \"dependencies\"\nversion = \"2.0.0\"\nedition = \"2018\"\n\n\
         [workspace]\nmembers = [\"dep1\", \"build1\"]\n\n\
         [dependencies]\ndep1 = { path = \"dep1\" , version = \"2.0.0\" }\n\n\
         [build-dependencies]\nbuild1 = { path = \"build1\" , version = \"2.0.0\" }\n"
    );
}

#[test]
fn prepare_twice_changes_nothing_the_second_time() {
    let workspace = workspace_with(
        "twice",
        "# a comment\n[package]\nname = \"twice\"\nversion = \"0.1.0\"\n\n\
         [dependencies]\ndep1 = { path = \"dep1\" }\n\n\
         [dependencies.build1]\npath = \"build1\"\n\n\
         [dev-dependencies]\ndev1 = { path = \"dev1\" }\n\n\
         [target.'cfg(windows)'.build-dependencies]\nbuild1 = { path = \"build1\" }\n",
        vec![
            link(0, 1, DependencyType::Normal, false, false, "dep1"),
            link(0, 2, DependencyType::Normal, false, false, "build1"),
            link(0, 2, DependencyType::Build, false, false, "build1"),
            link(0, 3, DependencyType::Dev, true, false, "dev1"),
        ],
    );

    let once = prepare_all(&workspace, "2.0.0").expect("prepare failed");
    let again = Workspace { graph: workspace.graph, manifests: once.clone() };
    let twice = prepare_all(&again, "2.0.0").expect("prepare failed");

    assert_eq!(once, twice);
    let cargo_toml = get_toml_document(&once[0]);
    let root = cargo_toml.as_table();
    assert_eq!(get_dep_version(root, "dependencies", "dep1"), "2.0.0");
    assert_eq!(get_dep_version(root, "dependencies", "build1"), "2.0.0");
    let windows = get_sub_table(get_sub_table(root, "target"), "cfg(windows)");
    assert_eq!(get_dep_version(windows, "build-dependencies", "build1"), "2.0.0");
}

#[test]
fn prepare_leaves_a_path_only_dev_dependency_alone() {
    let manifest = "[package]\nname = \"devs\"\nversion = \"0.1.0\"\n\n\
         [dependencies]\ndev1 = { path = \"dev1\" }\n\n\
         [dev-dependencies]\ndev1 = { path = \"dev1\" }\ndep1 = { path = \"dep1\" }\n";
    let workspace = workspace_with(
        "devs",
        manifest,
        vec![
            // dev1 is a normal and a dev dependency, dep1 a dev dependency only
            link(0, 3, DependencyType::Normal, false, false, "dev1"),
            link(0, 3, DependencyType::Dev, false, false, "dev1"),
            link(0, 1, DependencyType::Dev, true, false, "dep1"),
        ],
    );

    let written = prepare_all(&workspace, "2.0.0").expect("prepare failed");

    let cargo_toml = get_toml_document(&written[0]);
    let root = cargo_toml.as_table();
    assert_eq!(get_dep_version(root, "dependencies", "dev1"), "2.0.0");
    let devs = get_sub_table(root, "dev-dependencies");
    assert!(devs["dev1"].as_table_like().expect("table-like").get("version").is_none());
    assert!(devs["dep1"].as_table_like().expect("table-like").get("version").is_none());
}

#[test]
fn prepare_creates_no_dependency_entry() {
    let workspace = workspace_with(
        "sparse",
        "[package]\nname = \"sparse\"\nversion = \"0.1.0\"\n\n\
         [dependencies]\nother = \"1\"\n\n[build-dependencies]\n\n\
         [target.'cfg(unix)'.dependencies]\nother = \"1\"\n",
        vec![
            link(0, 1, DependencyType::Normal, false, false, "dep1"),
            link(0, 2, DependencyType::Build, false, false, "build1"),
        ],
    );

    let written = prepare_all(&workspace, "2.0.0").expect("prepare failed");

    let cargo_toml = get_toml_document(&written[0]);
    let root = cargo_toml.as_table();
    assert_eq!(get_sub_table(root, "dependencies").len(), 1);
    assert!(get_sub_table(root, "dependencies").get("dep1").is_none());
    assert_eq!(get_sub_table(root, "build-dependencies").len(), 0);
    let unix = get_sub_table(get_sub_table(root, "target"), "cfg(unix)");
    assert_eq!(get_sub_table(unix, "dependencies").len(), 1);
    assert!(root.get("dev-dependencies").is_none());
}

#[test]
fn prepare_skips_dependencies_outside_the_workspace() {
    let mut graph = Graph::new();
    graph.add_package(member("app", "")).expect("new package");
    let mut serde = member("serde", "serde");
    serde.source = PackageSource::CratesIo;
    graph.add_package(serde).expect("new package");
    assert!(graph.add_link(link(0, 1, DependencyType::Normal, false, true, "serde")));
    let workspace = Workspace {
        graph,
        manifests: vec![
            "[package]\nname = \"app\"\nversion = \"0.1.0\"\n\n\
             [dependencies]\nserde = { version = \"1.0\" }\n"
                .to_string(),
            leaf_manifest("serde"),
        ],
    };

    let mut cargo = read_cargo_toml(&workspace.manifests[0], "Cargo.toml").expect("toml");
    prepare(&workspace.graph, 0, &mut cargo, "2.0.0").expect("prepare failed");

    let written = write_cargo_toml(&cargo);
    let cargo_toml = get_toml_document(&written);
    assert_eq!(get_dep_version(cargo_toml.as_table(), "dependencies", "serde"), "1.0");
    assert_eq!(package_version(&written), "2.0.0");
}

#[test]
fn prepare_fails_on_a_dependency_that_is_no_table() {
    let workspace = workspace_with(
        "malformed",
        "[package]\nname = \"malformed\"\nversion = \"0.1.0\"\n\n\
         [dependencies]\ndep1 = \"0.1.0\"\n",
        vec![link(0, 1, DependencyType::Normal, false, true, "dep1")],
    );

    let result = prepare_all(&workspace, "2.0.0");

    match result {
        Err(Error::CargoTomlError {
            inner: CargoTomlError::SetVersion { name, version },
            manifest_path,
        }) => {
            assert_eq!(name, "dep1");
            assert_eq!(version, "2.0.0");
            assert_eq!(manifest_path, "/workspace/Cargo.toml");
        }
        other => panic!("unexpected result {:?}", other),
    }
}

#[test]
fn prepare_fails_on_a_malformed_target_dependency() {
    let workspace = workspace_with(
        "malformed_target",
        "[package]\nname = \"malformed_target\"\nversion = \"0.1.0\"\n\n\
         [dependencies]\ndep1 = { path = \"dep1\" }\n\n\
         [target.'cfg(unix)'.dependencies]\ndep1 = 7\n",
        vec![link(0, 1, DependencyType::Normal, false, false, "dep1")],
    );

    let result = prepare_all(&workspace, "2.0.0");

    assert!(matches!(
        result,
        Err(Error::CargoTomlError { inner: CargoTomlError::SetVersion { .. }, .. })
    ));
}

#[test]
fn prepare_fails_without_a_package_table() {
    let mut workspace = workspace_basic();
    workspace.manifests[0] = "[workspace]\nmembers = []\n".to_string();

    let result = prepare_all(&workspace, "2.0.0");

    match result {
        Err(Error::CargoTomlError { inner: CargoTomlError::NoTable { table_name }, .. }) => {
            assert_eq!(table_name, "package");
        }
        other => panic!("unexpected result {:?}", other),
    }
}

#[test]
fn prepare_fails_without_a_version_of_the_package() {
    let mut workspace = workspace_basic();
    workspace.manifests[0] = "[package]\nname = \"basic\"\n".to_string();

    let result = prepare_all(&workspace, "2.0.0");

    match result {
        Err(Error::CargoTomlError {
            inner: CargoTomlError::NoValue { value_name },
            manifest_path,
        }) => {
            assert_eq!(value_name, "version");
            assert_eq!(manifest_path, "/workspace/Cargo.toml");
        }
        other => panic!("unexpected result {:?}", other),
    }
}

#[test]
fn set_package_version_overwrites_the_version() {
    let text = "[package]\nname = \"a\"\nversion = \"0.1.0\" # old\n\n[dependencies]\n";
    let mut cargo = read_cargo_toml(text, "Cargo.toml").expect("toml");

    let done = set_package_version(&mut cargo, "2.0.0");

    assert!(done.is_ok());
    assert_eq!(package_version(&write_cargo_toml(&cargo)), "2.0.0");
    assert_eq!(get_toml_document(&write_cargo_toml(&cargo))["package"]["name"].as_str(), Some("a"));

    // Whatever stands in the slot is overwritten.
    let text = "[package]\nname = \"a\"\nversion = { workspace = true }\n";
    let mut cargo = read_cargo_toml(text, "Cargo.toml").expect("toml");
    assert!(set_package_version(&mut cargo, "2.0.0").is_ok());
    assert_eq!(package_version(&write_cargo_toml(&cargo)), "2.0.0");
}

#[test]
fn set_package_version_needs_a_version_to_set() {
    let text = "[package]\nname = 'a'\n";
    let mut cargo = read_cargo_toml(text, "Cargo.toml").expect("toml");

    let done = set_package_version(&mut cargo, "2.0.0");

    match done {
        Err(CargoTomlError::NoValue { value_name }) => assert_eq!(value_name, "version"),
        other => panic!("unexpected result {:?}", other),
    }
    assert_eq!(write_cargo_toml(&cargo), text);
}

#[test]
fn set_package_version_needs_a_package_table() {
    for text in ["[workspace]\nmembers = []\n", "package = { version = \"1\" }\n", ""] {
        let mut cargo = read_cargo_toml(text, "Cargo.toml").expect("toml");

        let done = set_package_version(&mut cargo, "2.0.0");

        match done {
            Err(CargoTomlError::NoTable { table_name }) => assert_eq!(table_name, "package"),
            other => panic!("unexpected result {:?}", other),
        }
        assert_eq!(write_cargo_toml(&cargo), text);
    }
}

#[test]
fn read_cargo_toml_rejects_what_is_no_toml() {
    let result = read_cargo_toml("[package\nname = ", "broken/Cargo.toml");

    match result {
        Err(Error::TomlError(error)) => {
            assert_eq!(error.path, "broken/Cargo.toml");
            assert!(!error.inner.is_empty());
            assert_eq!(error.message(), "Unable to parse broken/Cargo.toml as a TOML file");
        }
        other => panic!("unexpected result {:?}", other.map(|doc| doc.to_string())),
    }
}

#[test]
fn write_cargo_toml_gives_back_what_was_read() {
    let text = "# keep me\n[package]\nname   = \"spaced\"   # and me\nversion = \"0.1.0\"\n";

    let cargo = read_cargo_toml(text, "Cargo.toml").expect("toml");

    assert_eq!(write_cargo_toml(&cargo), text);
}

/// A document whose root has been replaced by a value.
fn document_without_table() -> DocumentMut {
    let mut document = DocumentMut::new();
    *document.as_item_mut() = toml_edit::value(1);
    document
}

#[test]
fn try_write_cargo_toml_writes_a_document_with_a_table_as_root() {
    let text = "# keep me\n[package]\nname = \"a\"\n";
    let cargo = read_cargo_toml(text, "Cargo.toml").expect("toml");
    assert_eq!(try_write_cargo_toml(&cargo), Some(text.to_string()));
    assert_eq!(try_write_cargo_toml(&DocumentMut::new()), Some(String::new()));

    let mut edited = read_cargo_toml("[package]\nversion = \"1\"\n", "Cargo.toml").expect("toml");
    set_package_version(&mut edited, "2").expect("a version to set");
    assert_eq!(try_write_cargo_toml(&edited), Some("[package]\nversion = \"2\"\n".to_string()));
}

#[test]
fn try_write_cargo_toml_refuses_a_document_without_a_table_as_root() {
    assert_eq!(try_write_cargo_toml(&document_without_table()), None);
}

#[test]
fn a_document_without_a_table_as_root_is_left_as_it_is() {
    let mut document = document_without_table();
    assert!(matches!(
        set_package_version(&mut document, "2.0.0"),
        Err(CargoTomlError::NoTable { .. })
    ));
    assert!(set_dependencies_version(&mut document, "2.0.0", DependencyType::Normal, "a").is_ok());
    assert!(set_lockfile_self_describing_metadata(&mut document, "2.0.0", "a").is_err());
    let workspace = workspace_basic();
    assert!(prepare(&workspace.graph, 0, &mut document, "2.0.0").is_err());
    assert_eq!(document.as_item().as_integer(), Some(1));
    assert_eq!(try_write_cargo_toml(&document), None);
}

#[test]
fn a_failed_edit_leaves_a_document_that_can_be_written() {
    let text = "[package]\nname = \"a\"\nversion = \"1\"\n\n\
        [dependencies]\ndep1 = { path = \"dep1\" }\n\n\
        [target.'cfg(unix)'.dependencies]\ndep1 = 7\n";
    let mut cargo = read_cargo_toml(text, "Cargo.toml").expect("toml");

    let done = set_dependencies_version(&mut cargo, "2.0.0", DependencyType::Normal, "dep1");

    assert!(done.is_err());
    let written = try_write_cargo_toml(&cargo).expect("still a table");
    assert!(get_toml_document(&written).as_table().contains_key("package"));
}

const LOCKFILE: &str = "# This file is automatically @generated by Cargo.\n\
version = 3\n\n\
[[package]]\nname = \"dep1\"\nversion = \"0.1.0\"\n\n\
[[package]]\nname = \"dependencies\"\nversion = \"0.1.0\"\ndependencies = [\n \"dep1\",\n]\n";

#[test]
fn lockfile_record_of_the_package_gets_the_version() {
    let mut lockfile = read_cargo_toml(LOCKFILE, "Cargo.lock").expect("toml");

    set_lockfile_self_describing_metadata(&mut lockfile, "2.0.0", "dependencies")
        .expect("update failed");

    assert_eq!(
        write_cargo_toml(&lockfile),
        "# This file is automatically @generated by Cargo.\n\
         version = 3\n\n\
         [[package]]\nname = \"dep1\"\nversion = \"0.1.0\"\n\n\
         [[package]]\nname = \"dependencies\"\nversion = \"2.0.0\"\ndependencies = [\n \"dep1\",\n]\n"
    );
}

#[test]
fn lockfile_update_twice_changes_nothing_the_second_time() {
    let mut lockfile = read_cargo_toml(LOCKFILE, "Cargo.lock").expect("toml");
    set_lockfile_self_describing_metadata(&mut lockfile, "2.0.0", "dep1").expect("update failed");
    let once = write_cargo_toml(&lockfile);

    set_lockfile_self_describing_metadata(&mut lockfile, "2.0.0", "dep1").expect("update failed");

    assert_eq!(write_cargo_toml(&lockfile), once);
}

#[test]
fn lockfile_without_a_record_of_the_package_is_an_error() {
    let mut lockfile = read_cargo_toml(LOCKFILE, "Cargo.lock").expect("toml");

    let result = set_lockfile_self_describing_metadata(&mut lockfile, "2.0.0", "missing");

    match result {
        Err(Error::CargoLockfileUpdate { reason, package_name }) => {
            assert_eq!(reason, "Unable to locate self-referential metadata in lockfile");
            assert_eq!(package_name, "missing");
        }
        other => panic!("unexpected result {:?}", other),
    }
    assert_eq!(write_cargo_toml(&lockfile), LOCKFILE);
}

#[test]
fn lockfile_without_records_is_an_error() {
    let text = "version = 3\n\n[package]\nname = \"dependencies\"\n";
    let mut lockfile = read_cargo_toml(text, "Cargo.lock").expect("toml");

    let result = set_lockfile_self_describing_metadata(&mut lockfile, "2.0.0", "dependencies");

    match result {
        Err(Error::CargoLockfileUpdate { reason, package_name }) => {
            assert_eq!(reason, "Cargo lockfile does not contain 'packages' array of tables");
            assert_eq!(package_name, "dependencies");
        }
        other => panic!("unexpected result {:?}", other),
    }
    assert_eq!(write_cargo_toml(&lockfile), text);

    let mut empty = read_cargo_toml("", "Cargo.lock").expect("toml");
    assert!(set_lockfile_self_describing_metadata(&mut empty, "2.0.0", "dependencies").is_err());
}
