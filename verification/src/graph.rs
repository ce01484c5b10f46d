//! The packages of a workspace and the dependency links between them.

use vstd::prelude::*;
use crate::text::str_eq;

verus! {

/// The section of a manifest that a dependency is declared in.
#[derive(Debug, Clone, Copy, PartialEq, Eq, Structural)]
pub enum DependencyType {
    /// A normal dependency (the `dependencies` section).
    Normal,
    /// A build dependency (the `build-dependencies` section).
    Build,
    /// A dev dependency (the `dev-dependencies` section).
    Dev,
}

impl DependencyType {
    /// The name of the manifest table that holds dependencies of this type.
    pub open spec fn key_spec(self) -> Seq<char> {
        match self {
            DependencyType::Normal => "dependencies"@,
            DependencyType::Build => "build-dependencies"@,
            DependencyType::Dev => "dev-dependencies"@,
        }
    }

    /// What a dependency of this type is called in a diagnostic.
    pub open spec fn label_spec(self) -> Seq<char> {
        match self {
            DependencyType::Normal => "Dependency"@,
            DependencyType::Build => "Build dependency"@,
            DependencyType::Dev => "Dev dependency"@,
        }
    }

    /// The name of the manifest table that holds dependencies of this type.
    pub fn key(&self) -> (key: &'static str)
        ensures
            key@ == self.key_spec(),
    {
        match self {
            DependencyType::Normal => "dependencies",
            DependencyType::Build => "build-dependencies",
            DependencyType::Dev => "dev-dependencies",
        }
    }

    /// What a dependency of this type is called in a diagnostic.
    pub fn label(&self) -> (label: &'static str)
        ensures
            label@ == self.label_spec(),
    {
        match self {
            DependencyType::Normal => "Dependency",
            DependencyType::Build => "Build dependency",
            DependencyType::Dev => "Dev dependency",
        }
    }
}

/// Where a package comes from.
#[derive(Debug, Clone, Copy, PartialEq, Eq, Structural)]
pub enum PackageSource {
    /// A member of the workspace.
    Workspace,
    /// A local path outside the workspace.
    Path,
    /// The crates.io registry.
    CratesIo,
    /// A registry other than crates.io.
    Registry,
    /// A git repository.
    Git,
    /// Any other source.
    Other,
}

/// The registries that a package may be published to.
#[derive(Debug, Clone)]
pub enum PackagePublish {
    /// The package may be published anywhere.
    Unrestricted,
    /// The package may be published to the listed registries only; to none
    /// if the list is empty.
    Registries(Vec<String>),
}

/// One package of the dependency graph.
#[derive(Debug, Clone)]
pub struct Package {
    /// The unique identifier of the package.
    pub id: String,
    /// The name of the package.
    pub name: String,
    /// The version of the package.
    pub version: String,
    /// The path of the package's manifest.
    pub manifest_path: String,
    /// For a workspace member, its directory relative to the workspace root
    /// (empty for the root package).
    pub workspace_path: String,
    /// Where the package comes from.
    pub source: PackageSource,
    /// Where the package may be published.
    pub publish: PackagePublish,
}

impl Package {
    /// Whether the package is a member of the workspace.
    pub open spec fn in_workspace_spec(self) -> bool {
        self.source is Workspace
    }

    /// Whether the package is a member of the workspace.
    pub fn in_workspace(&self) -> (member: bool)
        ensures
            member == self.in_workspace_spec(),
    {
        match self.source {
            PackageSource::Workspace => true,
            _ => false,
        }
    }
}

/// One declared dependency of the package `from` on the package `to`.
///
/// A pair of packages has one link for each section that declares the
/// dependency.
#[derive(Debug, Clone)]
pub struct DependencyLink {
    /// The index of the depending package.
    pub from: usize,
    /// The index of the package depended on.
    pub to: usize,
    /// The section that declares the dependency.
    pub kind: DependencyType,
    /// Whether `from` depends on `to` as a dev dependency only.
    pub dev_only: bool,
    /// Whether the declaration carries a version requirement.
    pub has_version_req: bool,
    /// The name under which `from`'s manifest declares the dependency. It
    /// differs from the name of `to` where the dependency is renamed.
    pub dep_name: String,
}

/// The mathematical content of a [`Graph`].
pub struct GraphModel {
    pub packages: Seq<Package>,
    pub links: Seq<DependencyLink>,
}

impl GraphModel {
    /// Every link joins two packages of the graph, only dev dependencies are
    /// marked dev-only, no two packages share an identifier, and packages
    /// and links can be counted.
    pub open spec fn wf(self) -> bool {
        &&& self.packages.len() <= usize::MAX
        &&& self.links.len() <= usize::MAX
        &&& forall|i: int| 0 <= i < self.links.len() ==> self.link_wf(#[trigger] self.links[i])
        &&& forall|i: int, j: int|
            0 <= i < j < self.packages.len() ==> self.packages[i].id@ != self.packages[j].id@
    }

    /// What [`GraphModel::wf`] asks of one link.
    pub open spec fn link_wf(self, link: DependencyLink) -> bool {
        &&& link.from < self.packages.len()
        &&& link.to < self.packages.len()
        &&& link.dev_only ==> link.kind is Dev
    }

    /// The number of packages.
    pub open spec fn size(self) -> int {
        self.packages.len() as int
    }
}

/// `list` holds the numbers below `n` that `wanted` holds of, all of them,
/// in rising order.
pub open spec fn selects(list: Seq<usize>, n: int, wanted: spec_fn(int) -> bool) -> bool {
    &&& forall|p: int| 0 <= p < list.len() ==> (#[trigger] list[p]) < n && wanted(list[p] as int)
    &&& forall|a: usize| a < n && wanted(a as int) ==> list.contains(a)
    &&& forall|p: int, q: int| 0 <= p < q < list.len() ==> (#[trigger] list[p]) < (#[trigger] list[q])
}

/// What `selects` holds of stays so when the next number is looked at.
pub proof fn lemma_select_next(
    before: Seq<usize>,
    after: Seq<usize>,
    n: usize,
    wanted: spec_fn(int) -> bool,
)
    requires
        selects(before, n as int, wanted),
        after == (if wanted(n as int) {
            before.push(n)
        } else {
            before
        }),
        n < usize::MAX,
    ensures
        selects(after, n + 1, wanted),
{
    assert forall|a: usize| a < n + 1 && wanted(a as int) implies after.contains(a) by {
        if a < n {
            assert(before.contains(a));
            let p = choose|p: int| 0 <= p < before.len() && before[p] == a;
            assert(after[p] == a);
        } else {
            assert(after[after.len() - 1] == a);
        }
    }
}

impl GraphModel {
    /// Package `a` is the first workspace member that lies in the directory
    /// `path` of the workspace.
    pub open spec fn is_member_at(self, a: int, path: Seq<char>) -> bool {
        &&& 0 <= a < self.size()
        &&& self.lies_at(a, path)
        &&& forall|b: int| 0 <= b < a ==> !self.lies_at(b, path)
    }

    /// Package `a` is a workspace member that lies in the directory `path`
    /// of the workspace.
    pub open spec fn lies_at(self, a: int, path: Seq<char>) -> bool {
        self.packages[a].in_workspace_spec() && self.packages[a].workspace_path@ == path
    }

    /// Link `i` starts from `package` and is declared in the section `kind`.
    pub open spec fn is_direct_link(self, i: int, package: int, kind: DependencyType) -> bool {
        self.links[i].from == package && self.links[i].kind == kind
    }
}

/// The dependency graph of one workspace: its members, the packages they
/// depend on, and the links between them.
#[derive(Debug)]
pub struct Graph {
    packages: Vec<Package>,
    links: Vec<DependencyLink>,
}

impl View for Graph {
    type V = GraphModel;

    closed spec fn view(&self) -> GraphModel {
        GraphModel { packages: self.packages@, links: self.links@ }
    }
}

impl Graph {
    /// What holds of every graph: its content is well-formed.
    #[verifier::type_invariant]
    pub open spec fn valid(self) -> bool {
        self@.wf()
    }

    /// A graph without packages.
    pub fn new() -> (graph: Graph)
        ensures
            graph@.packages.len() == 0,
            graph@.links.len() == 0,
    {
        Graph { packages: Vec::new(), links: Vec::new() }
    }

    /// The number of packages.
    pub fn package_count(&self) -> (count: usize)
        ensures
            count == self@.packages.len(),
            self@.wf(),
    {
        proof {
            use_type_invariant(self);
        }
        self.packages.len()
    }

    /// The number of links.
    pub fn link_count(&self) -> (count: usize)
        ensures
            count == self@.links.len(),
    {
        self.links.len()
    }

    /// The package at `index`.
    pub fn package(&self, index: usize) -> (package: &Package)
        requires
            index < self@.packages.len(),
        ensures
            *package == self@.packages[index as int],
    {
        &self.packages[index]
    }

    /// The link at `index`.
    pub fn link(&self, index: usize) -> (link: &DependencyLink)
        requires
            index < self@.links.len(),
        ensures
            *link == self@.links[index as int],
            self@.link_wf(*link),
    {
        proof {
            use_type_invariant(self);
        }
        &self.links[index]
    }

    /// The index of the package with the identifier `id`, if there is one.
    pub fn package_by_id(&self, id: &str) -> (found: Option<usize>)
        ensures
            match found {
                Some(index) => index < self@.packages.len() && self@.packages[index as int].id@ == id@,
                None => forall|i: int| 0 <= i < self@.packages.len() ==> self@.packages[i].id@ != id@,
            },
    {
        let mut i: usize = 0;
        while i < self.packages.len()
            invariant
                i <= self.packages.len(),
                forall|j: int| 0 <= j < i ==> self@.packages[j].id@ != id@,
            decreases self.packages.len() - i,
        {
            if str_eq(self.packages[i].id.as_str(), id) {
                return Some(i);
            }
            i += 1;
        }
        None
    }

    /// The workspace member that lies in the directory `path` of the
    /// workspace, if there is one. The root of the workspace lies in the
    /// directory with the empty path.
    pub fn member_by_path(&self, path: &str) -> (found: Option<usize>)
        ensures
            match found {
                Some(a) => self@.is_member_at(a as int, path@),
                None => forall|a: int| 0 <= a < self@.size() ==> !self@.lies_at(a, path@),
            },
    {
        let mut a: usize = 0;
        while a < self.packages.len()
            invariant
                a <= self.packages.len(),
                forall|b: int| 0 <= b < a ==> !self@.lies_at(b, path@),
            decreases self.packages.len() - a,
        {
            if self.packages[a].in_workspace() && str_eq(
                self.packages[a].workspace_path.as_str(),
                path,
            ) {
                return Some(a);
            }
            a += 1;
        }
        None
    }

    /// The workspace members, in the order of the graph.
    pub fn workspace_members(&self) -> (members: Vec<usize>)
        ensures
            selects(
                members@,
                self@.size(),
                |a: int| self@.packages[a].in_workspace_spec(),
            ),
    {
        let ghost wanted = |a: int| self@.packages[a].in_workspace_spec();
        let mut members: Vec<usize> = Vec::new();
        let mut a: usize = 0;
        while a < self.packages.len()
            invariant
                a <= self.packages.len(),
                wanted == |a: int| self@.packages[a].in_workspace_spec(),
                selects(members@, a as int, wanted),
            decreases self.packages.len() - a,
        {
            let ghost before = members@;
            if self.packages[a].in_workspace() {
                members.push(a);
            }
            proof {
                lemma_select_next(before, members@, a, wanted);
            }
            a += 1;
        }
        members
    }

    /// The links that start from `package` and are declared in the section
    /// `kind`, in the order of the graph.
    pub fn direct_links(&self, package: usize, kind: DependencyType) -> (links: Vec<usize>)
        ensures
            selects(
                links@,
                self@.links.len() as int,
                |i: int| self@.is_direct_link(i, package as int, kind),
            ),
    {
        let ghost wanted = |i: int| self@.is_direct_link(i, package as int, kind);
        let mut links: Vec<usize> = Vec::new();
        let mut i: usize = 0;
        while i < self.links.len()
            invariant
                i <= self.links.len(),
                wanted == |i: int| self@.is_direct_link(i, package as int, kind),
                selects(links@, i as int, wanted),
            decreases self.links.len() - i,
        {
            let ghost before = links@;
            if self.links[i].from == package && self.links[i].kind == kind {
                links.push(i);
            }
            proof {
                lemma_select_next(before, links@, i, wanted);
            }
            i += 1;
        }
        links
    }

    /// Adds a package and returns its index, or `None`, leaving the graph as
    /// it is, if the graph already holds a package with the same identifier.
    pub fn add_package(&mut self, package: Package) -> (added: Option<usize>)
        ensures
            final(self)@.links == old(self)@.links,
            match added {
                Some(index) => {
                    &&& index == old(self)@.packages.len()
                    &&& final(self)@.packages == old(self)@.packages.push(package)
                    &&& forall|i: int| 0 <= i < old(self)@.packages.len()
                        ==> old(self)@.packages[i].id@ != package.id@
                },
                None => {
                    &&& final(self)@.packages == old(self)@.packages
                    &&& exists|i: int| 0 <= i < old(self)@.packages.len()
                        && old(self)@.packages[i].id@ == package.id@
                },
            },
    {
        proof {
            use_type_invariant(&*self);
        }
        match self.package_by_id(package.id.as_str()) {
            Some(_) => None,
            None => {
                let mut taken = Graph::new();
                std::mem::swap(self, &mut taken);
                proof {
                    use_type_invariant(&taken);
                }
                let Graph { mut packages, links } = taken;
                let ghost before = GraphModel { packages: packages@, links: links@ };
                packages.push(package);
                // Reading the length shows that the packages can still be counted.
                let index = packages.len() - 1;
                proof {
                    let after = GraphModel { packages: packages@, links: links@ };
                    assert forall|i: int| 0 <= i < after.links.len() implies after.link_wf(
                        #[trigger] after.links[i],
                    ) by {
                        assert(before.link_wf(before.links[i]));
                    }
                }
                *self = Graph { packages, links };
                Some(index)
            },
        }
    }

    /// Adds a link and returns true, or returns false, leaving the graph as
    /// it is, if the link names a package that the graph does not hold or is
    /// marked dev-only without being a dev dependency.
    pub fn add_link(&mut self, link: DependencyLink) -> (added: bool)
        ensures
            final(self)@.packages == old(self)@.packages,
            added == old(self)@.link_wf(link),
            added ==> final(self)@.links == old(self)@.links.push(link),
            !added ==> final(self)@.links == old(self)@.links,
    {
        proof {
            use_type_invariant(&*self);
        }
        let dev = match link.kind {
            DependencyType::Dev => true,
            _ => false,
        };
        if link.from < self.packages.len() && link.to < self.packages.len() && (!link.dev_only || dev) {
            let mut taken = Graph::new();
            std::mem::swap(self, &mut taken);
            proof {
                use_type_invariant(&taken);
            }
            let Graph { packages, mut links } = taken;
            let ghost before = GraphModel { packages: packages@, links: links@ };
            links.push(link);
            // Reading the length shows that the links can still be counted.
            let count = links.len();
            proof {
                let after = GraphModel { packages: packages@, links: links@ };
                assert(after.links.len() == count);
                assert forall|i: int| 0 <= i < after.links.len() implies after.link_wf(
                    #[trigger] after.links[i],
                ) by {
                    if i < before.links.len() {
                        assert(before.link_wf(before.links[i]));
                    }
                }
            }
            *self = Graph { packages, links };
            true
        } else {
            false
        }
    }
}

} // verus!
