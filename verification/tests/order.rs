use semantic_release_cargo::{
    find_cycle, link_is_publishable, package_is_publishable, publish_order, DependencyLink,
    DependencyType, Graph, Package, PackagePublish, PackageSource,
};

fn member(name: &str) -> Package {
    Package {
        id: format!("{} 0.1.0", name),
        name: name.to_string(),
        version: "0.1.0".to_string(),
        manifest_path: format!("{}/Cargo.toml", name),
        workspace_path: name.to_string(),
        source: PackageSource::Workspace,
        publish: PackagePublish::Unrestricted,
    }
}

fn outsider(name: &str, source: PackageSource) -> Package {
    Package { source, ..member(name) }
}

fn restricted(name: &str, registries: &[&str]) -> Package {
    Package {
        publish: PackagePublish::Registries(registries.iter().map(|r| r.to_string()).collect()),
        ..member(name)
    }
}

fn normal(from: usize, to: usize) -> DependencyLink {
    DependencyLink {
        from,
        to,
        kind: DependencyType::Normal,
        dev_only: false,
        has_version_req: false,
        dep_name: format!("dep{}", to),
    }
}

fn dev_only(from: usize, to: usize) -> DependencyLink {
    DependencyLink { kind: DependencyType::Dev, dev_only: true, ..normal(from, to) }
}

fn graph_of(packages: Vec<Package>, links: Vec<DependencyLink>) -> Graph {
    let mut graph = Graph::new();
    for (index, package) in packages.into_iter().enumerate() {
        assert_eq!(graph.add_package(package), Some(index));
    }
    for link in links {
        assert!(graph.add_link(link));
    }
    graph
}

fn members(count: usize) -> Vec<Package> {
    (0..count).map(|i| member(&format!("p{}", i))).collect()
}

fn position(order: &[usize], package: usize) -> usize {
    order.iter().position(|p| *p == package).expect("package is listed")
}

#[test]
fn publish_order_of_a_chain_starts_at_its_end() {
    // p0 -> p1 -> p2 -> p3
    let graph = graph_of(members(4), vec![normal(0, 1), normal(1, 2), normal(2, 3)]);

    assert_eq!(publish_order(&graph, None), vec![3, 2, 1, 0]);
}

#[test]
fn publish_order_lists_dependencies_before_dependents() {
    // root -> dep1, root -> build1 (as a build dependency)
    let mut build = normal(0, 2);
    build.kind = DependencyType::Build;
    let graph = graph_of(members(3), vec![normal(0, 1), build]);

    let order = publish_order(&graph, None);

    assert_eq!(order, vec![1, 2, 0]);
}

#[test]
fn publish_order_respects_every_link_of_a_diamond() {
    // 0 -> 1, 0 -> 2, 1 -> 3, 2 -> 3, 4 on its own, 5 -> 0
    let links = vec![normal(0, 1), normal(0, 2), normal(1, 3), normal(2, 3), normal(5, 0)];
    let graph = graph_of(members(6), links.clone());

    let order = publish_order(&graph, None);

    assert_eq!(order.len(), 6);
    for link in &links {
        assert!(position(&order, link.to) < position(&order, link.from));
    }
    // Packages that need equally many packages come in the order of their index.
    assert_eq!(order, vec![3, 4, 1, 2, 0, 5]);
}

#[test]
fn publish_order_is_the_same_on_every_run() {
    let links = vec![normal(3, 1), normal(2, 0), normal(4, 3), normal(4, 2)];
    let graph = graph_of(members(5), links);

    let first = publish_order(&graph, None);
    let second = publish_order(&graph, None);

    assert_eq!(first, second);
    assert_eq!(first, vec![0, 1, 2, 3, 4]);
}

#[test]
fn publish_order_ignores_dev_only_links() {
    // 0 needs 1 to build; 1 needs 0 for its tests only.
    let graph = graph_of(members(2), vec![normal(0, 1), dev_only(1, 0)]);

    assert_eq!(publish_order(&graph, None), vec![1, 0]);
}

#[test]
fn publish_order_follows_links_through_packages_that_are_not_published() {
    // 0 -> 1 -> 2, where 1 is not to be published.
    let packages = vec![member("top"), restricted("middle", &[]), member("bottom")];
    let graph = graph_of(packages, vec![normal(0, 1), normal(1, 2)]);

    assert_eq!(publish_order(&graph, None), vec![2, 0]);
}

#[test]
fn publish_order_holds_workspace_members_only() {
    let packages = vec![
        member("app"),
        outsider("serde", PackageSource::CratesIo),
        outsider("local", PackageSource::Path),
        member("lib"),
    ];
    let graph = graph_of(packages, vec![normal(0, 1), normal(0, 3), normal(3, 1), normal(3, 2)]);

    assert_eq!(publish_order(&graph, None), vec![3, 0]);
}

#[test]
fn publish_order_goes_by_the_target_registry() {
    let packages = vec![
        restricted("for_test", &["test"]),
        member("anywhere"),
        restricted("nowhere", &[]),
        restricted("for_crates_io", &["crates-io"]),
    ];
    let graph = graph_of(packages, vec![normal(0, 1)]);

    assert_eq!(publish_order(&graph, None), vec![1, 3]);
    assert_eq!(publish_order(&graph, Some("test")), vec![1, 0]);
    assert_eq!(publish_order(&graph, Some("crates-io")), vec![1, 3]);
    assert_eq!(publish_order(&graph, Some("other")), vec![1]);
}

#[test]
fn publish_order_of_nothing_is_empty() {
    assert_eq!(publish_order(&Graph::new(), None), Vec::<usize>::new());
}

#[test]
fn publish_order_ends_on_a_cycle_too() {
    let graph = graph_of(members(3), vec![normal(0, 1), normal(1, 0), normal(2, 0)]);

    let order = publish_order(&graph, None);

    // The link from outside the cycle is respected, the cycle is listed by index.
    assert_eq!(order, vec![0, 1, 2]);
}

#[test]
fn find_cycle_finds_none_in_a_tree() {
    let graph = graph_of(members(4), vec![normal(0, 1), normal(0, 2), normal(2, 3)]);

    assert_eq!(find_cycle(&graph), None);
    assert_eq!(find_cycle(&Graph::new()), None);
}

#[test]
fn find_cycle_names_both_members_of_a_two_node_cycle() {
    let graph = graph_of(members(3), vec![normal(2, 1), normal(1, 2)]);

    assert_eq!(find_cycle(&graph), Some((1, 2)));
}

#[test]
fn find_cycle_sees_dev_only_links() {
    let graph = graph_of(members(3), vec![normal(0, 1), normal(1, 2), dev_only(2, 0)]);

    assert_eq!(find_cycle(&graph), Some((0, 1)));
}

#[test]
fn find_cycle_sees_cycles_outside_the_workspace() {
    let packages = vec![
        member("app"),
        outsider("a", PackageSource::CratesIo),
        outsider("b", PackageSource::CratesIo),
    ];
    let graph = graph_of(packages, vec![normal(0, 1), normal(1, 2), dev_only(2, 1)]);

    assert_eq!(find_cycle(&graph), Some((1, 2)));
}

#[test]
fn find_cycle_reports_the_first_of_several_cycles() {
    let graph = graph_of(
        members(5),
        vec![normal(3, 4), normal(4, 3), normal(1, 2), normal(2, 1), normal(0, 1)],
    );

    assert_eq!(find_cycle(&graph), Some((1, 2)));
}

#[test]
fn find_cycle_does_not_report_a_package_that_depends_on_itself_alone() {
    let graph = graph_of(members(2), vec![dev_only(0, 0), normal(1, 0)]);

    assert_eq!(find_cycle(&graph), None);
}

#[test]
fn package_is_publishable_if_unrestricted_whatever_the_registry() {
    let package = member("free");

    assert!(package_is_publishable(&package, None));
    assert!(package_is_publishable(&package, Some("test")));
    assert!(package_is_publishable(&package, Some("crates-io")));
}

#[test]
fn package_is_publishable_to_the_one_registry_it_is_restricted_to() {
    let package = restricted("bound", &["test"]);

    assert!(package_is_publishable(&package, Some("test")));
    assert!(!package_is_publishable(&package, Some("other")));
    assert!(!package_is_publishable(&package, None));

    let crates_io = restricted("bound", &["crates-io"]);
    assert!(package_is_publishable(&crates_io, None));
    assert!(package_is_publishable(&crates_io, Some("crates-io")));
    assert!(!package_is_publishable(&crates_io, Some("test")));
}

#[test]
fn package_is_not_publishable_if_no_registry_is_allowed() {
    let package = restricted("private", &[]);

    assert!(!package_is_publishable(&package, None));
    assert!(!package_is_publishable(&package, Some("test")));
}

#[test]
fn restrictions_to_several_registries_are_told_apart() {
    let graph = graph_of(vec![member("a"), restricted("b", &["x", "y"])], Vec::new());
    assert!(!graph.restrictions_supported());
    assert!(!graph.package(1).publish.supported());
    assert!(graph.package(0).publish.supported());

    // Outside the workspace the restriction does not matter.
    let mut foreign = restricted("c", &["x", "y"]);
    foreign.source = PackageSource::Registry;
    let graph = graph_of(vec![member("a"), restricted("b", &["x"]), foreign], Vec::new());
    assert!(graph.restrictions_supported());
}

#[test]
fn link_is_publishable_by_the_source_of_its_target() {
    let packages = vec![
        member("app"),
        member("lib"),
        outsider("serde", PackageSource::CratesIo),
        outsider("local", PackageSource::Path),
        outsider("rand", PackageSource::Git),
        outsider("private", PackageSource::Registry),
        outsider("odd", PackageSource::Other),
    ];
    let links = vec![
        normal(0, 1),
        normal(0, 2),
        normal(0, 3),
        normal(0, 4),
        normal(0, 5),
        normal(0, 6),
        dev_only(0, 4),
    ];
    let graph = graph_of(packages, links);

    assert!(link_is_publishable(&graph, 0));
    assert!(link_is_publishable(&graph, 1));
    assert!(!link_is_publishable(&graph, 2));
    assert!(!link_is_publishable(&graph, 3));
    assert!(!link_is_publishable(&graph, 4));
    assert!(!link_is_publishable(&graph, 5));
    assert!(link_is_publishable(&graph, 6));
}

#[test]
fn graph_rejects_what_does_not_fit() {
    let mut graph = Graph::new();
    assert_eq!(graph.add_package(member("a")), Some(0));
    assert_eq!(graph.add_package(member("b")), Some(1));
    // a second package with the same identifier
    assert_eq!(graph.add_package(member("a")), None);
    assert_eq!(graph.package_count(), 2);

    // links to packages that are not there
    assert!(!graph.add_link(normal(0, 2)));
    assert!(!graph.add_link(normal(2, 0)));
    // a dev-only link that is no dev dependency
    let mut odd = normal(0, 1);
    odd.dev_only = true;
    assert!(!graph.add_link(odd));
    assert_eq!(graph.link_count(), 0);

    assert!(graph.add_link(normal(0, 1)));
    assert!(graph.add_link(dev_only(1, 0)));
    assert_eq!(graph.link_count(), 2);
    assert_eq!(graph.link(1).from, 1);
    assert_eq!(graph.package(1).name, "b");
    assert_eq!(graph.package_by_id("b 0.1.0"), Some(1));
    assert_eq!(graph.package_by_id("c 0.1.0"), None);
    assert!(graph.package(0).in_workspace());
}

#[test]
fn graph_knows_the_root_of_the_workspace() {
    let mut root = member("root");
    root.workspace_path = String::new();
    let mut elsewhere = outsider("elsewhere", PackageSource::CratesIo);
    elsewhere.workspace_path = String::new();
    let graph = graph_of(vec![elsewhere, member("a"), root], Vec::new());
    assert_eq!(graph.root_member(), Some(2));

    let graph = graph_of(vec![member("a"), member("b")], Vec::new());
    assert_eq!(graph.root_member(), None);
}

#[test]
fn dependency_types_have_their_tables() {
    assert_eq!(DependencyType::Normal.key(), "dependencies");
    assert_eq!(DependencyType::Build.key(), "build-dependencies");
    assert_eq!(DependencyType::Dev.key(), "dev-dependencies");
    assert_eq!(DependencyType::Normal.label(), "Dependency");
    assert_eq!(DependencyType::Build.label(), "Build dependency");
    assert_eq!(DependencyType::Dev.label(), "Dev dependency");
}
