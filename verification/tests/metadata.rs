use semantic_release_cargo::{
    build_graph, find_cycle, publish_order, DependencyType, LinkRecord, PackagePublish,
    PackageRecord, PackageSource, SourceRecord,
};

fn record(name: &str, source: SourceRecord) -> PackageRecord {
    PackageRecord {
        id: format!("{} 1.0.0", name),
        name: name.to_string(),
        version: "1.0.0".to_string(),
        manifest_path: format!("/ws/{}/Cargo.toml", name),
        source,
        publish: None,
    }
}

fn member(name: &str, path: &str) -> PackageRecord {
    record(name, SourceRecord::Workspace { path: path.to_string() })
}

fn external(name: &str, source: &str) -> PackageRecord {
    record(name, SourceRecord::External { source: source.to_string() })
}

fn link(from: &str, to: &str, normal: bool, build: bool, dev: bool) -> LinkRecord {
    LinkRecord {
        from: format!("{} 1.0.0", from),
        to: format!("{} 1.0.0", to),
        dep_name: to.replace('-', "_"),
        has_version_req: true,
        normal,
        build,
        dev,
    }
}

#[test]
fn build_graph_keeps_the_packages_in_their_order() {
    let mut restricted = member("lib", "lib");
    restricted.publish = Some(vec!["test".to_string()]);
    let packages = vec![
        member("app", ""),
        restricted,
        record("tool", SourceRecord::Path { path: "../tool".to_string() }),
    ];

    let graph = build_graph(packages, Vec::new(), "/ws/Cargo.toml").expect("consistent");

    assert_eq!(graph.package_count(), 3);
    assert_eq!(graph.link_count(), 0);
    let app = graph.package(0);
    assert_eq!(app.id, "app 1.0.0");
    assert_eq!(app.name, "app");
    assert_eq!(app.version, "1.0.0");
    assert_eq!(app.manifest_path, "/ws/app/Cargo.toml");
    assert_eq!(app.workspace_path, "");
    assert_eq!(app.source, PackageSource::Workspace);
    assert!(matches!(app.publish, PackagePublish::Unrestricted));
    let lib = graph.package(1);
    assert_eq!(lib.workspace_path, "lib");
    match &lib.publish {
        PackagePublish::Registries(names) => assert_eq!(names, &["test"]),
        other => panic!("unexpected restriction {:?}", other),
    }
    let tool = graph.package(2);
    assert_eq!(tool.source, PackageSource::Path);
    assert_eq!(tool.workspace_path, "");
    assert_eq!(graph.workspace_members(), vec![0, 1]);
    assert_eq!(graph.member_by_path(""), Some(0));
    assert_eq!(graph.member_by_path("lib"), Some(1));
    assert_eq!(graph.member_by_path("../tool"), None);
    assert_eq!(graph.root_member(), Some(0));
}

#[test]
fn build_graph_tells_the_sources_apart() {
    let packages = vec![
        external("serde", "registry+https://github.com/rust-lang/crates.io-index"),
        external("mine", "registry+https://example.com/index"),
        external("sparse", "sparse+https://example.com/index/"),
        external("rand", "git+https://github.com/rust-random/rand?branch=main#abcdef"),
        external("odd", "hg+https://example.com/odd"),
        external("short", "git"),
        external("empty", ""),
    ];

    let graph = build_graph(packages, Vec::new(), "Cargo.toml").expect("consistent");

    let sources: Vec<PackageSource> = (0..7).map(|index| graph.package(index).source).collect();
    assert_eq!(
        sources,
        [
            PackageSource::CratesIo,
            PackageSource::Registry,
            PackageSource::Registry,
            PackageSource::Git,
            PackageSource::Other,
            PackageSource::Other,
            PackageSource::Other,
        ]
    );
    assert!(graph.workspace_members().is_empty());
}

#[test]
fn build_graph_makes_a_link_for_each_section() {
    let packages = vec![member("app", ""), member("lib", "lib"), member("test-kit", "kit")];
    let links = vec![
        link("app", "lib", true, true, true),
        link("lib", "test-kit", false, false, true),
        link("app", "test-kit", false, true, true),
        link("test-kit", "lib", false, false, false),
    ];

    let graph = build_graph(packages, links, "Cargo.toml").expect("consistent");

    let made: Vec<(usize, usize, DependencyType, bool)> = (0..graph.link_count())
        .map(|index| {
            let link = graph.link(index);
            (link.from, link.to, link.kind, link.dev_only)
        })
        .collect();
    assert_eq!(
        made,
        [
            (0, 1, DependencyType::Normal, false),
            (0, 1, DependencyType::Build, false),
            (0, 1, DependencyType::Dev, false),
            (1, 2, DependencyType::Dev, true),
            (0, 2, DependencyType::Build, false),
            (0, 2, DependencyType::Dev, false),
        ]
    );
    assert_eq!(graph.link(3).dep_name, "test_kit");
    assert!(graph.link(3).has_version_req);
    assert_eq!(graph.direct_links(0, DependencyType::Build), vec![1, 4]);
    assert_eq!(graph.direct_links(0, DependencyType::Normal), vec![0]);
    assert_eq!(graph.direct_links(1, DependencyType::Dev), vec![3]);
    assert_eq!(graph.direct_links(2, DependencyType::Dev), Vec::<usize>::new());
    assert_eq!(find_cycle(&graph), None);
    // The dev-only link from lib to test-kit does not count for the order.
    assert_eq!(publish_order(&graph, None), vec![1, 2, 0]);
}

#[test]
fn build_graph_rejects_two_packages_with_one_identifier() {
    let packages = vec![member("app", ""), member("lib", "lib"), member("app", "other")];

    let error = build_graph(packages, Vec::new(), "/ws/Cargo.toml").err().expect("inconsistent");

    assert_eq!(error.manifest_path, "/ws/Cargo.toml");
    assert_eq!(error.metadata_error, "two packages of the workspace have the same identifier");
}

#[test]
fn build_graph_rejects_a_link_to_a_package_that_is_not_there() {
    let links = vec![link("app", "lib", true, false, false), link("app", "gone", true, false, false)];
    let error = build_graph(vec![member("app", ""), member("lib", "lib")], links, "Cargo.toml")
        .err()
        .expect("inconsistent");
    assert_eq!(error.manifest_path, "Cargo.toml");
    assert_eq!(
        error.metadata_error,
        "a dependency of the workspace joins packages that are not all known"
    );

    let links = vec![link("gone", "app", false, false, false)];
    assert!(build_graph(vec![member("app", "")], links, "Cargo.toml").is_err());
}
