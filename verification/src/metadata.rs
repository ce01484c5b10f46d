//! The dependency graph as it is built from the metadata of a workspace.

use vstd::prelude::*;
use crate::error::WorkspaceError;
use crate::graph::{
    DependencyLink, DependencyType, Graph, GraphModel, Package, PackagePublish, PackageSource,
};
use crate::text::{begins_with, starts_with, str_eq};

verus! {

/// Where the metadata says that a package comes from.
#[derive(Debug)]
pub enum SourceRecord {
    /// The package is a member of the workspace.
    Workspace {
        /// The directory of the member, relative to the workspace root.
        path: String,
    },
    /// The package lies at a local path outside the workspace.
    Path {
        /// The directory of the package.
        path: String,
    },
    /// The package comes from elsewhere.
    External {
        /// The source, as cargo writes it: a protocol, a plus sign and a
        /// location.
        source: String,
    },
}

/// What the metadata says of one package.
#[derive(Debug)]
pub struct PackageRecord {
    /// The unique identifier of the package.
    pub id: String,
    /// The name of the package.
    pub name: String,
    /// The version of the package.
    pub version: String,
    /// The path of the package's manifest.
    pub manifest_path: String,
    /// Where the package comes from.
    pub source: SourceRecord,
    /// The registries that the package may be published to; `None` if it
    /// may be published anywhere.
    pub publish: Option<Vec<String>>,
}

/// What the metadata says of the dependency of one package on another.
#[derive(Debug)]
pub struct LinkRecord {
    /// The identifier of the depending package.
    pub from: String,
    /// The identifier of the package depended on.
    pub to: String,
    /// The name under which the depending package declares the dependency.
    pub dep_name: String,
    /// Whether the declaration carries a version requirement.
    pub has_version_req: bool,
    /// Whether the section `dependencies` declares the dependency.
    pub normal: bool,
    /// Whether the section `build-dependencies` declares the dependency.
    pub build: bool,
    /// Whether the section `dev-dependencies` declares the dependency.
    pub dev: bool,
}

/// The source of the packages of crates.io, as cargo writes it.
pub const CRATES_IO_REGISTRY: &'static str =
    "registry+https://github.com/rust-lang/crates.io-index";

/// What kind of source `source` is: crates.io, another registry, a git
/// repository, or something else.
pub open spec fn external_kind(source: Seq<char>) -> PackageSource {
    if source == CRATES_IO_REGISTRY@ {
        PackageSource::CratesIo
    } else if begins_with(source, "registry+"@) || begins_with(source, "sparse+"@) {
        PackageSource::Registry
    } else if begins_with(source, "git+"@) {
        PackageSource::Git
    } else {
        PackageSource::Other
    }
}

/// `package` is the package that `record` describes.
pub open spec fn describes(package: Package, record: PackageRecord) -> bool {
    &&& package.id@ == record.id@
    &&& package.name@ == record.name@
    &&& package.version@ == record.version@
    &&& package.manifest_path@ == record.manifest_path@
    &&& match record.source {
        SourceRecord::Workspace { path } => package.source is Workspace && package.workspace_path@
            == path@,
        SourceRecord::Path { path } => package.source is Path && package.workspace_path@.len()
            == 0,
        SourceRecord::External { source } => package.source == external_kind(source@)
            && package.workspace_path@.len() == 0,
    }
    &&& match record.publish {
        Some(registries) => package.publish == PackagePublish::Registries(registries),
        None => package.publish is Unrestricted,
    }
}

/// What a link is, with its name as text.
pub struct LinkView {
    pub from: int,
    pub to: int,
    pub kind: DependencyType,
    pub dev_only: bool,
    pub has_version_req: bool,
    pub dep_name: Seq<char>,
}

/// The link as a value with its name as text.
pub open spec fn link_view(link: DependencyLink) -> LinkView {
    LinkView {
        from: link.from as int,
        to: link.to as int,
        kind: link.kind,
        dev_only: link.dev_only,
        has_version_req: link.has_version_req,
        dep_name: link.dep_name@,
    }
}

/// The links with their names as text.
pub open spec fn link_views(links: Seq<DependencyLink>) -> Seq<LinkView> {
    links.map_values(|link: DependencyLink| link_view(link))
}

/// The links that `record` stands for, between the packages at `from` and
/// `to`: one for each section that declares the dependency, in the order
/// `dependencies`, `build-dependencies`, `dev-dependencies`. The link of the
/// last is dev-only if no other section declares the dependency.
pub open spec fn links_of(record: LinkRecord, from: int, to: int) -> Seq<LinkView> {
    let declared = |kind: DependencyType|
        LinkView {
            from,
            to,
            kind,
            dev_only: kind is Dev && !record.normal && !record.build,
            has_version_req: record.has_version_req,
            dep_name: record.dep_name@,
        };
    (if record.normal {
        seq![declared(DependencyType::Normal)]
    } else {
        Seq::empty()
    }) + (if record.build {
        seq![declared(DependencyType::Build)]
    } else {
        Seq::empty()
    }) + (if record.dev {
        seq![declared(DependencyType::Dev)]
    } else {
        Seq::empty()
    })
}

/// The package at `index` has the identifier `id`.
pub open spec fn has_id(packages: Seq<Package>, index: int, id: Seq<char>) -> bool {
    0 <= index < packages.len() && packages[index].id@ == id
}

/// The index of the package with the identifier `id`.
pub open spec fn index_of(packages: Seq<Package>, id: Seq<char>) -> int {
    choose|index: int| has_id(packages, index, id)
}

/// The links that the first `upto` of `records` stand for.
pub open spec fn all_links(packages: Seq<Package>, records: Seq<LinkRecord>, upto: int) -> Seq<
    LinkView,
>
    decreases upto,
{
    if upto <= 0 {
        Seq::empty()
    } else {
        all_links(packages, records, upto - 1) + links_of(
            records[upto - 1],
            index_of(packages, records[upto - 1].from@),
            index_of(packages, records[upto - 1].to@),
        )
    }
}

/// One of `packages` has the identifier `id`.
pub open spec fn known(packages: Seq<PackageRecord>, id: Seq<char>) -> bool {
    exists|i: int| 0 <= i < packages.len() && (#[trigger] packages[i]).id@ == id
}

/// `link` joins two of `packages`.
pub open spec fn joins_known(packages: Seq<PackageRecord>, link: LinkRecord) -> bool {
    known(packages, link.from@) && known(packages, link.to@)
}

/// No two of `packages` share an identifier.
pub open spec fn distinct_ids(packages: Seq<PackageRecord>) -> bool {
    forall|i: int, j: int|
        0 <= i < j < packages.len() ==> (#[trigger] packages[i]).id@ != (#[trigger] packages[j]).id@
}

/// The metadata is consistent: no two packages share an identifier, and
/// every link joins two of the packages.
pub open spec fn consistent(packages: Seq<PackageRecord>, links: Seq<LinkRecord>) -> bool {
    &&& distinct_ids(packages)
    &&& forall|k: int| 0 <= k < links.len() ==> joins_known(packages, #[trigger] links[k])
}

/// `graph` is the graph of the metadata: it holds the packages that
/// `packages` describe, in their order, and the links that `links` stand
/// for, in theirs.
pub open spec fn is_graph_of(
    graph: GraphModel,
    packages: Seq<PackageRecord>,
    links: Seq<LinkRecord>,
) -> bool {
    &&& graph.packages.len() == packages.len()
    &&& forall|i: int|
        0 <= i < packages.len() ==> describes(#[trigger] graph.packages[i], packages[i])
    &&& link_views(graph.links) == all_links(graph.packages, links, links.len() as int)
}

/// What is said of metadata with two packages of one identifier.
pub const DUPLICATE: &'static str = "two packages of the workspace have the same identifier";

/// What is said of metadata with a link to or from a package that it does
/// not hold.
pub const DANGLING: &'static str =
    "a dependency of the workspace joins packages that are not all known";

/// The error for metadata that is not consistent.
fn inconsistent(complaint: &str, root: &str) -> (error: WorkspaceError)
    ensures
        error.metadata_error@ == complaint@,
        error.manifest_path@ == root@,
{
    WorkspaceError { metadata_error: complaint.to_owned(), manifest_path: root.to_owned() }
}

/// The kind of the source `source`.
fn classify(source: &str) -> (kind: PackageSource)
    ensures
        kind == external_kind(source@),
{
    if str_eq(source, CRATES_IO_REGISTRY) {
        PackageSource::CratesIo
    } else if starts_with(source, "registry+") || starts_with(source, "sparse+") {
        PackageSource::Registry
    } else if starts_with(source, "git+") {
        PackageSource::Git
    } else {
        PackageSource::Other
    }
}

/// The package that `record` describes.
fn package_from(record: PackageRecord) -> (package: Package)
    ensures
        describes(package, record),
{
    let PackageRecord { id, name, version, manifest_path, source, publish } = record;
    let (source, workspace_path) = match source {
        SourceRecord::Workspace { path } => (PackageSource::Workspace, path),
        SourceRecord::Path { path } => (PackageSource::Path, String::new()),
        SourceRecord::External { source } => (classify(source.as_str()), String::new()),
    };
    let publish = match publish {
        Some(registries) => PackagePublish::Registries(registries),
        None => PackagePublish::Unrestricted,
    };
    Package { id, name, version, manifest_path, workspace_path, source, publish }
}

/// Adds the link that `record` stands for in the section `kind`.
fn add_declared(graph: &mut Graph, record: &LinkRecord, from: usize, to: usize, kind: DependencyType)
    requires
        from < old(graph)@.packages.len(),
        to < old(graph)@.packages.len(),
    ensures
        final(graph)@.packages == old(graph)@.packages,
        link_views(final(graph)@.links) == link_views(old(graph)@.links).push(
            LinkView {
                from: from as int,
                to: to as int,
                kind,
                dev_only: kind is Dev && !record.normal && !record.build,
                has_version_req: record.has_version_req,
                dep_name: record.dep_name@,
            },
        ),
{
    let dev = match kind {
        DependencyType::Dev => true,
        _ => false,
    };
    let link = DependencyLink {
        from,
        to,
        kind,
        dev_only: dev && !record.normal && !record.build,
        has_version_req: record.has_version_req,
        dep_name: record.dep_name.clone(),
    };
    let ghost before = graph@.links;
    let added = graph.add_link(link);
    assert(added);
    assert(link_views(graph@.links) =~= link_views(before).push(link_view(link)));
}

/// Builds the dependency graph of a workspace from its metadata.
///
/// The graph holds a package for each of `packages`, in their order, and a
/// link for each section in which one of `links` is declared. Fails, naming
/// the manifest `root` at which the workspace was looked for, if two
/// packages have the same identifier or a link joins packages that are not
/// both among `packages`.
pub fn build_graph(packages: Vec<PackageRecord>, links: Vec<LinkRecord>, root: &str) -> (built: Result<
    Graph,
    WorkspaceError,
>)
    ensures
        match built {
            Ok(graph) => consistent(packages@, links@) && is_graph_of(graph@, packages@, links@),
            Err(error) => {
                &&& !consistent(packages@, links@)
                &&& error.manifest_path@ == root@
                &&& error.metadata_error@ == if distinct_ids(packages@) {
                    DANGLING@
                } else {
                    DUPLICATE@
                }
            },
        },
{
    let mut graph = Graph::new();
    let ghost records = packages@;
    for record in iter: packages.into_iter()
        invariant
            iter.seq() == records,
            graph@.links.len() == 0,
            graph@.packages.len() == iter.index(),
            forall|i: int|
                0 <= i < iter.index() ==> describes(#[trigger] graph@.packages[i], records[i]),
    {
        let ghost done = iter.index() as int;
        let ghost before = graph@.packages;
        match graph.add_package(package_from(record)) {
            Some(_) => {},
            None => {
                proof {
                    let j = choose|j: int|
                        0 <= j < before.len() && before[j].id@ == records[done].id@;
                    assert(describes(before[j], records[j]));
                    assert(records[j].id@ == records[done].id@);
                    assert(!distinct_ids(records));
                }
                return Err(inconsistent(DUPLICATE, root));
            },
        }
    }
    proof {
        use_type_invariant(&graph);
        assert forall|i: int, j: int| 0 <= i < j < records.len() implies (#[trigger] records[i]).id@
            != (#[trigger] records[j]).id@ by {
            assert(describes(graph@.packages[i], records[i]));
            assert(describes(graph@.packages[j], records[j]));
        }
    }
    let ghost held = graph@.packages;
    let mut k: usize = 0;
    while k < links.len()
        invariant
            k <= links.len(),
            records == packages@,
            graph@.packages == held,
            held.len() == records.len(),
            forall|i: int| 0 <= i < records.len() ==> describes(#[trigger] held[i], records[i]),
            distinct_ids(records),
            forall|j: int| 0 <= j < k ==> joins_known(records, #[trigger] links[j]),
            link_views(graph@.links) == all_links(held, links@, k as int),
        decreases links.len() - k,
    {
        let record = &links[k];
        let from = graph.package_by_id(record.from.as_str());
        let to = graph.package_by_id(record.to.as_str());
        match (from, to) {
            (Some(from), Some(to)) => {
                proof {
                    assert(has_id(held, from as int, record.from@));
                    assert(has_id(held, to as int, record.to@));
                    let f = index_of(held, record.from@);
                    let t = index_of(held, record.to@);
                    use_type_invariant(&graph);
                    assert(f == from) by {
                        if f < from {
                            assert(held[f].id@ != held[from as int].id@);
                        } else if from < f {
                            assert(held[from as int].id@ != held[f].id@);
                        }
                    }
                    assert(t == to) by {
                        if t < to {
                            assert(held[t].id@ != held[to as int].id@);
                        } else if to < t {
                            assert(held[to as int].id@ != held[t].id@);
                        }
                    }
                    assert(describes(held[from as int], records[from as int]));
                    assert(describes(held[to as int], records[to as int]));
                    assert(records[from as int].id@ == links[k as int].from@);
                    assert(records[to as int].id@ == links[k as int].to@);
                }
                let ghost before = link_views(graph@.links);
                if record.normal {
                    add_declared(&mut graph, record, from, to, DependencyType::Normal);
                }
                if record.build {
                    add_declared(&mut graph, record, from, to, DependencyType::Build);
                }
                if record.dev {
                    add_declared(&mut graph, record, from, to, DependencyType::Dev);
                }
                assert(link_views(graph@.links) =~= before + links_of(
                    *record,
                    from as int,
                    to as int,
                ));
            },
            _ => {
                proof {
                    if joins_known(records, links[k as int]) {
                        let from = links[k as int].from@;
                        let to = links[k as int].to@;
                        let i = choose|i: int|
                            0 <= i < records.len() && (#[trigger] records[i]).id@ == from;
                        assert(describes(held[i], records[i]));
                        let j = choose|j: int|
                            0 <= j < records.len() && (#[trigger] records[j]).id@ == to;
                        assert(describes(held[j], records[j]));
                        assert(false);
                    }
                    assert(!joins_known(records, links@[k as int]));
                    assert(!consistent(records, links@));
                }
                return Err(inconsistent(DANGLING, root));
            },
        }
        k += 1;
    }
    Ok(graph)
}

} // verus!
