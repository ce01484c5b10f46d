//! The conditions that a workspace has to meet before a release.

use vstd::prelude::*;
use vstd::string::StringExecFns;
use crate::error::{Error, WorkspaceError};
use crate::graph::{lemma_select_next, selects, DependencyType, Graph, GraphModel};
use crate::manifest::{declares_version, dependency_has_version, read_cargo_toml};
use crate::order::find_cycle;
use crate::publishable::{link_is_publishable, target_registry, CRATES_IO};
use crate::text::{str_eq, to_uppercase, uppercased};
use crate::toml::{document_root, parsed_toml, TomlItem};

verus! {

/// What the cargo configuration says of one registry.
#[derive(Debug, Clone)]
pub struct RegistryConfig {
    /// The name of the registry.
    pub name: String,
    /// Whether a token is configured for the registry.
    pub token_set: bool,
}

/// What the cargo configuration says of registry tokens.
#[derive(Debug, Clone)]
pub struct CargoConfig {
    /// Whether a token is configured for the default registry.
    pub token_set: bool,
    /// The registries that the configuration names. Where two have the same
    /// name, the first one counts.
    pub registries: Vec<RegistryConfig>,
}

/// The manifest of a package as it was found on disk.
#[derive(Debug)]
pub struct ManifestFile {
    /// The index of the package.
    pub package: usize,
    /// The text of the manifest, or why it could not be read.
    pub content: Result<String, String>,
}

/// What a step reports: the text that goes to the output stream, and the
/// result.
#[derive(Debug)]
pub struct Report {
    /// The diagnostic for the operator. It is empty or ends a line.
    pub output: String,
    /// The result of the step.
    pub result: Result<(), Error>,
}

/// What the verification of the conditions for a release finds.
pub enum Finding {
    /// All conditions are met.
    Passed,
    /// No token is configured for the registry called `registry`.
    NoToken { registry: Seq<char> },
    /// The workspace could not be resolved.
    NoWorkspace,
    /// Two packages depend on each other.
    Cycle { first: int, second: int },
    /// The manifest of a package could not be read.
    Unreadable { package: int },
    /// The manifest of a package is not a TOML document.
    NotToml { package: int },
    /// A link keeps the package that it starts from from being published.
    BadDependency { link: int },
}

/// The first registry at or after `from` that is called `name`.
pub open spec fn find_registry(registries: Seq<RegistryConfig>, name: Seq<char>, from: int) -> Option<
    RegistryConfig,
>
    decreases registries.len() - from,
{
    if from < 0 || from >= registries.len() {
        None
    } else if registries[from].name@ == name {
        Some(registries[from])
    } else {
        find_registry(registries, name, from + 1)
    }
}

/// A token is configured for the alternate registry that is called `name`
/// and, in upper case, `upper`. The registry is looked up under `name`.
/// Only if the configuration names no registry so, it is looked up under
/// `upper`: a registry that is found under `name` without a token has none,
/// whatever is configured under `upper`.
pub open spec fn alternate_token_is_set(
    registries: Seq<RegistryConfig>,
    name: Seq<char>,
    upper: Seq<char>,
) -> bool {
    match find_registry(registries, name, 0) {
        Some(registry) => registry.token_set,
        None => match find_registry(registries, upper, 0) {
            Some(registry) => registry.token_set,
            None => false,
        },
    }
}

/// A token is configured for the registry that the release goes to. An
/// alternate registry is looked up under its name, and if the configuration
/// does not name it so, under its name in upper case.
pub open spec fn token_is_set(config: CargoConfig, alternate_registry: Option<&str>) -> bool {
    match alternate_registry {
        Some(name) => alternate_token_is_set(config.registries@, name@, uppercased(name@)),
        None => config.token_set,
    }
}

/// The first manifest at or after `from` that belongs to `package`.
pub open spec fn find_manifest(manifests: Seq<ManifestFile>, package: int, from: int) -> Option<
    ManifestFile,
>
    decreases manifests.len() - from,
{
    if from < 0 || from >= manifests.len() {
        None
    } else if manifests[from].package == package {
        Some(manifests[from])
    } else {
        find_manifest(manifests, package, from + 1)
    }
}

impl GraphModel {
    /// Link `i` starts from `package` and keeps it from being published
    /// unless its declaration states a version.
    pub open spec fn link_blocks(self, i: int, package: int) -> bool {
        &&& 0 <= i < self.links.len()
        &&& self.links[i].from == package
        &&& !self.link_is_publishable(i)
    }

    /// Some link that starts from `package` keeps it from being published
    /// unless its declaration states a version.
    pub open spec fn has_blocking_link(self, package: int) -> bool {
        exists|i: int| #[trigger] self.link_blocks(i, package)
    }

    /// Link `i` keeps `package`, whose manifest is `root`, from being
    /// published.
    pub open spec fn link_is_bad(self, root: TomlItem, i: int, package: int) -> bool {
        &&& self.link_blocks(i, package)
        &&& self.links[i].kind is Normal || self.links[i].kind is Build
        &&& !declares_version(root, self.links[i].kind, self.links[i].dep_name@)
    }

    /// The first link at or after `from` that keeps `package` from being
    /// published.
    pub open spec fn first_bad_link(self, root: TomlItem, package: int, from: int) -> Option<int>
        decreases self.links.len() - from,
    {
        if from < 0 || from >= self.links.len() {
            None
        } else if self.link_is_bad(root, from, package) {
            Some(from)
        } else {
            self.first_bad_link(root, package, from + 1)
        }
    }

    /// What the verification finds for one package: nothing for a package outside
    /// the workspace or one whose dependencies are all to be had. For any
    /// other workspace member the manifest is looked at.
    pub open spec fn package_finding(self, manifests: Seq<ManifestFile>, package: int) -> Finding {
        if !self.packages[package].in_workspace_spec() || !self.has_blocking_link(package) {
            Finding::Passed
        } else {
            match find_manifest(manifests, package, 0) {
                Some(ManifestFile { content: Ok(text), .. }) => match parsed_toml(text@) {
                    Ok(root) => match self.first_bad_link(root, package, 0) {
                        Some(link) => Finding::BadDependency { link },
                        None => Finding::Passed,
                    },
                    Err(_) => Finding::NotToml { package },
                },
                _ => Finding::Unreadable { package },
            }
        }
    }

    /// What the verification finds for the packages at or after `from`: the first
    /// thing that it finds for one of them.
    pub open spec fn packages_finding(self, manifests: Seq<ManifestFile>, from: int) -> Finding
        decreases self.packages.len() - from,
    {
        if from < 0 || from >= self.packages.len() {
            Finding::Passed
        } else {
            match self.package_finding(manifests, from) {
                Finding::Passed => self.packages_finding(manifests, from + 1),
                found => found,
            }
        }
    }

    /// Packages `a` and `b` are the first two packages that depend on each
    /// other, going by the index of the first and then by that of the second.
    pub open spec fn is_first_cycle(self, a: int, b: int) -> bool {
        &&& self.on_cycle(a, b)
        &&& forall|c: int, d: int| #[trigger] self.on_cycle(c, d) ==> a < c || (a == c && b <= d)
    }

    /// What the verification finds in a workspace: a cycle, or else the first thing
    /// that it finds for one of the packages.
    pub open spec fn workspace_finding(self, manifests: Seq<ManifestFile>) -> Finding {
        if self.has_cycle() {
            let (first, second) = choose|a: int, b: int| self.is_first_cycle(a, b);
            Finding::Cycle { first, second }
        } else {
            self.packages_finding(manifests, 0)
        }
    }
}

/// What the verification of the conditions for a release finds: a missing token,
/// or else a workspace that could not be resolved, or else what it finds in
/// the workspace.
pub open spec fn finding(
    config: CargoConfig,
    alternate_registry: Option<&str>,
    workspace: Option<GraphModel>,
    manifests: Seq<ManifestFile>,
) -> Finding {
    if !token_is_set(config, alternate_registry) {
        Finding::NoToken { registry: target_registry(alternate_registry) }
    } else {
        match workspace {
            Some(g) => g.workspace_finding(manifests),
            None => Finding::NoWorkspace,
        }
    }
}

/// The diagnostic for a registry without a token.
pub open spec fn no_token_text(registry: Seq<char>) -> Seq<char> {
    "registry token for "@ + registry + " empty or not set."@
}

/// The diagnostic for a workspace that could not be resolved.
pub open spec fn no_workspace_text(error: WorkspaceError) -> Seq<char> {
    "Unable to build workspace dependencies graph: "@ + error.message_spec() + "\n"@
}

/// The diagnostic for two packages that depend on each other.
pub open spec fn cycle_text(first: Seq<char>, second: Seq<char>) -> Seq<char> {
    "Workspace contains a cycle that includes (at least) "@ + first + " and "@ + second + "\n"@
}

/// The diagnostic for a dependency of type `typ` of the package `from` on
/// the package `to` that keeps `from` from being published.
pub open spec fn bad_dependency_text(typ: DependencyType, from: Seq<char>, to: Seq<char>) -> Seq<
    char,
> {
    typ.label_spec() + " "@ + to + " of "@ + from + " makes "@ + from + " not publishable.\n"@
}

/// The reason given for a manifest that the caller did not supply.
pub const NOT_SUPPLIED: &'static str = "the manifest was not supplied";

/// `report` is the report of the finding `found`.
pub open spec fn reports(
    report: Report,
    found: Finding,
    workspace: Result<&Graph, WorkspaceError>,
    manifests: Seq<ManifestFile>,
) -> bool {
    match found {
        Finding::Passed => report.output@.len() == 0 && report.result is Ok,
        Finding::NoToken { registry } => {
            &&& report.output@ == no_token_text(registry) + "\n"@
            &&& report.result matches Err(Error::VerifyError { reason })
            &&& reason@ == no_token_text(registry)
        },
        Finding::NoWorkspace => {
            &&& workspace matches Err(error)
            &&& report.output@ == no_workspace_text(error)
            &&& report.result == Err::<(), Error>(Error::WorkspaceError(error))
        },
        Finding::Cycle { first, second } => {
            &&& workspace matches Ok(graph)
            &&& report.output@ == cycle_text(
                graph@.packages[first].name@,
                graph@.packages[second].name@,
            )
            &&& report.result matches Err(Error::WorkspaceCycles { crate1, crate2 })
            &&& crate1@ == graph@.packages[first].name@
            &&& crate2@ == graph@.packages[second].name@
        },
        Finding::Unreadable { package } => {
            &&& workspace matches Ok(graph)
            &&& report.output@.len() == 0
            &&& report.result matches Err(Error::FileReadError { inner, path })
            &&& path@ == graph@.packages[package].manifest_path@
            &&& inner@ == match find_manifest(manifests, package, 0) {
                Some(ManifestFile { content: Err(reason), .. }) => reason@,
                _ => NOT_SUPPLIED@,
            }
        },
        Finding::NotToml { package } => {
            &&& workspace matches Ok(graph)
            &&& report.output@.len() == 0
            &&& report.result matches Err(Error::TomlError(inner))
            &&& inner.path@ == graph@.packages[package].manifest_path@
            &&& find_manifest(manifests, package, 0) matches Some(
                ManifestFile { content: Ok(text), .. },
            )
            &&& parsed_toml(text@) == Err::<TomlItem, Seq<char>>(inner.inner@)
        },
        Finding::BadDependency { link } => {
            &&& workspace matches Ok(graph)
            &&& report.output@ == bad_dependency_text(
                graph@.links[link].kind,
                graph@.packages[graph@.links[link].from as int].name@,
                graph@.packages[graph@.links[link].to as int].name@,
            )
            &&& report.result matches Err(error)
            &&& error.is_bad_dependency(
                graph@.packages[graph@.links[link].from as int].name@,
                graph@.packages[graph@.links[link].to as int].name@,
                graph@.links[link].kind,
            )
        },
    }
}

/// The view of a workspace that was or was not resolved.
pub open spec fn workspace_model(workspace: Result<&Graph, WorkspaceError>) -> Option<GraphModel> {
    match workspace {
        Ok(graph) => Some(graph@),
        Err(_) => None,
    }
}

/// Looks up the registry called `name`.
fn registry_by_name<'a>(registries: &'a Vec<RegistryConfig>, name: &str) -> (found: Option<
    &'a RegistryConfig,
>)
    ensures
        match found {
            Some(registry) => find_registry(registries@, name@, 0) == Some(*registry),
            None => find_registry(registries@, name@, 0) is None,
        },
{
    let mut i: usize = 0;
    while i < registries.len()
        invariant
            i <= registries.len(),
            find_registry(registries@, name@, 0) == find_registry(registries@, name@, i as int),
        decreases registries.len() - i,
    {
        if str_eq(registries[i].name.as_str(), name) {
            return Some(&registries[i]);
        }
        i += 1;
    }
    None
}

/// Is a token configured for the alternate registry that is called `name`
/// and, in upper case, `upper`?
///
/// The registry is looked up under `name`, and only if the configuration
/// names no registry so, under `upper`.
pub fn alternate_token_set(config: &CargoConfig, name: &str, upper: &str) -> (set: bool)
    ensures
        set == alternate_token_is_set(config.registries@, name@, upper@),
{
    match registry_by_name(&config.registries, name) {
        Some(registry) => registry.token_set,
        None => match registry_by_name(&config.registries, upper) {
            Some(registry) => registry.token_set,
            None => false,
        },
    }
}

/// Is a token configured for the registry that the release goes to?
pub fn registry_token_set(config: &CargoConfig, alternate_registry: Option<&str>) -> (set: bool)
    ensures
        set == token_is_set(*config, alternate_registry),
{
    match alternate_registry {
        Some(name) => {
            let upper = to_uppercase(name);
            alternate_token_set(config, name, upper.as_str())
        },
        None => config.token_set,
    }
}

/// Looks up the manifest of `package`.
fn manifest_of<'a>(manifests: &'a Vec<ManifestFile>, package: usize) -> (found: Option<
    &'a ManifestFile,
>)
    ensures
        match found {
            Some(manifest) => find_manifest(manifests@, package as int, 0) == Some(*manifest),
            None => find_manifest(manifests@, package as int, 0) is None,
        },
{
    let mut i: usize = 0;
    while i < manifests.len()
        invariant
            i <= manifests.len(),
            find_manifest(manifests@, package as int, 0) == find_manifest(
                manifests@,
                package as int,
                i as int,
            ),
        decreases manifests.len() - i,
    {
        if manifests[i].package == package {
            return Some(&manifests[i]);
        }
        i += 1;
    }
    None
}

/// Does some link that starts from `package` keep it from being published
/// unless its declaration states a version?
fn has_blocking_link(graph: &Graph, package: usize) -> (blocked: bool)
    ensures
        blocked == graph@.has_blocking_link(package as int),
{
    let count = graph.link_count();
    let mut i: usize = 0;
    while i < count
        invariant
            i <= count,
            count == graph@.links.len(),
            forall|j: int| 0 <= j < i ==> !#[trigger] graph@.link_blocks(j, package as int),
        decreases count - i,
    {
        if graph.link(i).from == package && !link_is_publishable(graph, i) {
            assert(graph@.link_blocks(i as int, package as int));
            return true;
        }
        i += 1;
    }
    false
}

/// The workspace members whose manifests the verification of the workspace looks
/// at: those with a dependency that is to be had only if its declaration
/// states a version.
pub fn manifests_to_read(graph: &Graph) -> (members: Vec<usize>)
    ensures
        selects(
            members@,
            graph@.size(),
            |a: int| graph@.packages[a].in_workspace_spec() && graph@.has_blocking_link(a),
        ),
{
    let ghost wanted = |a: int| graph@.packages[a].in_workspace_spec() && graph@.has_blocking_link(a);
    let n = graph.package_count();
    let mut members: Vec<usize> = Vec::new();
    let mut a: usize = 0;
    while a < n
        invariant
            a <= n,
            n == graph@.size(),
            wanted == |a: int|
                graph@.packages[a].in_workspace_spec() && graph@.has_blocking_link(a),
            selects(members@, a as int, wanted),
        decreases n - a,
    {
        let ghost before = members@;
        if graph.package(a).in_workspace() && has_blocking_link(graph, a) {
            members.push(a);
        }
        proof {
            lemma_select_next(before, members@, a, wanted);
        }
        a += 1;
    }
    members
}

/// The report of a step that has nothing to say.
fn passed() -> (report: Report)
    ensures
        report.output@.len() == 0,
        report.result is Ok,
{
    Report { output: String::new(), result: Ok(()) }
}

/// The report of a failure that the operator is told nothing of.
fn failed(error: Error) -> (report: Report)
    ensures
        report.output@.len() == 0,
        report.result == Err::<(), Error>(error),
{
    Report { output: String::new(), result: Err(error) }
}

/// Checks the dependencies of one package against its manifest.
fn check_package(graph: &Graph, manifests: &Vec<ManifestFile>, package: usize) -> (report: Report)
    requires
        package < graph@.packages.len(),
    ensures
        reports(report, graph@.package_finding(manifests@, package as int), Ok(graph), manifests@),
{
    let from = graph.package(package);
    if !from.in_workspace() || !has_blocking_link(graph, package) {
        return passed();
    }
    let path = from.manifest_path.as_str();
    let ghost supplied = find_manifest(manifests@, package as int, 0);
    let text = match manifest_of(manifests, package) {
        Some(manifest) => match &manifest.content {
            Ok(text) => text,
            Err(reason) => {
                return failed(Error::file_read_error(reason.clone(), path));
            },
        },
        None => {
            return failed(Error::file_read_error(NOT_SUPPLIED.to_owned(), path));
        },
    };
    let cargo = match read_cargo_toml(text.as_str(), path) {
        Ok(cargo) => cargo,
        Err(error) => {
            return failed(error);
        },
    };
    let ghost root = document_root(cargo);
    let count = graph.link_count();
    let mut i: usize = 0;
    while i < count
        invariant
            i <= count,
            count == graph@.links.len(),
            package < graph@.packages.len(),
            root == document_root(cargo),
            *from == graph@.packages[package as int],
            from.in_workspace_spec(),
            graph@.has_blocking_link(package as int),
            supplied == find_manifest(manifests@, package as int, 0),
            supplied matches Some(manifest) && manifest.content == Ok::<String, String>(*text),
            parsed_toml(text@) == Ok::<TomlItem, Seq<char>>(root),
            graph@.first_bad_link(root, package as int, 0) == graph@.first_bad_link(
                root,
                package as int,
                i as int,
            ),
        decreases count - i,
    {
        let link = graph.link(i);
        if link.from == package && !link_is_publishable(graph, i) {
            let checked = match link.kind {
                DependencyType::Normal => true,
                DependencyType::Build => true,
                DependencyType::Dev => false,
            };
            if checked && !dependency_has_version(&cargo, link.kind, link.dep_name.as_str()) {
                let to = graph.package(link.to);
                let mut output = String::from_str(link.kind.label());
                output.append(" ");
                output.append(to.name.as_str());
                output.append(" of ");
                output.append(from.name.as_str());
                output.append(" makes ");
                output.append(from.name.as_str());
                output.append(" not publishable.\n");
                assert(graph@.link_is_bad(root, i as int, package as int));
                return Report {
                    output,
                    result: Err(
                        Error::bad_dependency(from.name.as_str(), to.name.as_str(), link.kind),
                    ),
                };
            }
        }
        i += 1;
    }
    passed()
}

/// Checks a workspace: that no two of its packages depend on each other and
/// that every dependency of its members can be had by whoever installs
/// them. A package that depends on itself alone is no cycle.
pub fn check_workspace(graph: &Graph, manifests: &Vec<ManifestFile>) -> (report: Report)
    ensures
        reports(report, graph@.workspace_finding(manifests@), Ok(graph), manifests@),
{
    match find_cycle(graph) {
        Some((first, second)) => {
            proof {
                let (a, b) = choose|a: int, b: int| graph@.is_first_cycle(a, b);
                assert(graph@.is_first_cycle(first as int, second as int));
                assert(graph@.on_cycle(a, b));
                assert(a == first && b == second);
                graph@.lemma_reaches_in_range(true, first as int, second as int);
            }
            let crate0 = graph.package(first).name.as_str();
            let crate1 = graph.package(second).name.as_str();
            let mut output = String::from_str(
                "Workspace contains a cycle that includes (at least) ",
            );
            output.append(crate0);
            output.append(" and ");
            output.append(crate1);
            output.append("\n");
            return Report {
                output,
                result: Err(
                    Error::WorkspaceCycles { crate1: crate0.to_owned(), crate2: crate1.to_owned() },
                ),
            };
        },
        None => {},
    }
    let n = graph.package_count();
    let mut package: usize = 0;
    while package < n
        invariant
            package <= n,
            n == graph@.packages.len(),
            !graph@.has_cycle(),
            graph@.packages_finding(manifests@, 0) == graph@.packages_finding(
                manifests@,
                package as int,
            ),
        decreases n - package,
    {
        let report = check_package(graph, manifests, package);
        if report.result.is_err() {
            return report;
        }
        package += 1;
    }
    passed()
}

/// Checks that a token is configured for the registry that the release goes
/// to: the alternate registry, or crates.io if none is given.
pub fn check_registry_token(config: &CargoConfig, alternate_registry: Option<&str>) -> (report:
    Report)
    ensures
        token_is_set(*config, alternate_registry) ==> report.output@.len() == 0 && report.result
            is Ok,
        !token_is_set(*config, alternate_registry) ==> {
            &&& report.output@ == no_token_text(target_registry(alternate_registry)) + "\n"@
            &&& report.result matches Err(Error::VerifyError { reason })
            &&& reason@ == no_token_text(target_registry(alternate_registry))
        },
{
    if registry_token_set(config, alternate_registry) {
        return passed();
    }
    let registry = match alternate_registry {
        Some(name) => name,
        None => CRATES_IO,
    };
    let mut reason = String::from_str("registry token for ");
    reason.append(registry);
    reason.append(" empty or not set.");
    let mut output = reason.clone();
    output.append("\n");
    Report { output, result: Err(Error::verify_error(reason)) }
}

/// Verifies that the conditions for a release to an alternate registry, or
/// to crates.io if none is given, are met:
///
/// 1. a token is configured for the registry;
/// 2. the dependency graph of the workspace could be built;
/// 3. no two packages of the workspace depend on each other;
/// 4. every dependency and build dependency of a workspace member is on
///    crates.io, is itself a workspace member, or states a version.
///
/// The report names the first condition that is not met.
///
/// A cycle takes two packages. A package that depends on itself, as one
/// does that names itself among its dev dependencies, and on no package
/// that depends on it in turn, passes the third condition.
pub fn verify_conditions_with_alternate(
    config: &CargoConfig,
    alternate_registry: Option<&str>,
    workspace: Result<&Graph, WorkspaceError>,
    manifests: &Vec<ManifestFile>,
) -> (report: Report)
    ensures
        reports(
            report,
            finding(*config, alternate_registry, workspace_model(workspace), manifests@),
            workspace,
            manifests@,
        ),
{
    let token = check_registry_token(config, alternate_registry);
    if token.result.is_err() {
        return token;
    }
    match workspace {
        Ok(graph) => {
            let report = check_workspace(graph, manifests);
            report
        },
        Err(error) => {
            let mut output = String::from_str("Unable to build workspace dependencies graph: ");
            output.append(error.message().as_str());
            output.append("\n");
            Report { output, result: Err(Error::WorkspaceError(error)) }
        },
    }
}

/// Verifies that the conditions for a release to crates.io are met. See
/// [`verify_conditions_with_alternate`].
pub fn verify_conditions(
    config: &CargoConfig,
    workspace: Result<&Graph, WorkspaceError>,
    manifests: &Vec<ManifestFile>,
) -> (report: Report)
    ensures
        reports(
            report,
            finding(*config, None, workspace_model(workspace), manifests@),
            workspace,
            manifests@,
        ),
{
    verify_conditions_with_alternate(config, None, workspace, manifests)
}

} // verus!
