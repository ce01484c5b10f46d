//! The publication of the workspace members, one `cargo publish` after the
//! other.

use vstd::prelude::*;
use vstd::string::StringExecFns;
use crate::error::Error;
use crate::graph::{Graph, GraphModel, Package};
use crate::order::publish_order;
use crate::publishable::{package_is_publishable, target_registry};
use crate::release::{package_url, Release, CRATES_IO_PACKAGES};
use crate::text::{decimal, decimal_spec, str_eq, utf8_lossy, views};

verus! {

/// The features with which one package is published.
#[derive(Debug, Clone)]
pub struct PackageFeatures {
    /// The name of the package.
    pub package: String,
    /// The features to turn on.
    pub features: Vec<String>,
}

/// The options of a publication.
#[derive(Debug)]
pub struct PublishArgs {
    /// Whether packages are published from a clean working tree only.
    pub no_dirty: Option<bool>,
    /// The features with which packages are published. Where two entries
    /// name the same package, the first one counts.
    pub features: Option<Vec<PackageFeatures>>,
    /// The registry to publish to; crates.io if it is `None`.
    pub registry: Option<String>,
}

impl Default for PublishArgs {
    fn default() -> (args: Self)
        ensures
            args.no_dirty is None,
            args.features is None,
            args.registry is None,
    {
        PublishArgs { no_dirty: None, features: None, registry: None }
    }
}

/// How an attempt to run `cargo publish` ended.
#[derive(Debug)]
pub enum PublishOutcome {
    /// The command could not be run.
    NotRun {
        /// Why the command could not be run.
        reason: String,
    },
    /// The command ran.
    Exited {
        /// Whether the command reported success.
        success: bool,
        /// The exit status of the command, as text.
        status: String,
        /// What the command wrote to its standard error.
        stderr: Vec<u8>,
    },
}

/// One `cargo publish` to run.
#[derive(Debug)]
pub struct PublishCommand {
    /// The index of the package to publish.
    pub package: usize,
    /// The name of the package.
    pub name: String,
    /// The path of the manifest of the package.
    pub manifest_path: String,
    /// The arguments to hand to cargo.
    pub arguments: Vec<String>,
}

/// The first entry at or after `from` that names `package`.
pub open spec fn find_features(list: Seq<PackageFeatures>, package: Seq<char>, from: int) -> Option<
    Seq<String>,
>
    decreases list.len() - from,
{
    if from < 0 || from >= list.len() {
        None
    } else if list[from].package@ == package {
        Some(list[from].features@)
    } else {
        find_features(list, package, from + 1)
    }
}

impl PublishArgs {
    /// The features with which the package called `package` is published.
    pub open spec fn features_for(self, package: Seq<char>) -> Option<Seq<String>> {
        match self.features {
            Some(list) => find_features(list@, package, 0),
            None => None,
        }
    }

    /// The name of the registry that the publication goes to.
    pub open spec fn target(self) -> Seq<char> {
        match self.registry {
            Some(name) => name@,
            None => crate::publishable::CRATES_IO@,
        }
    }
}

/// The arguments with which cargo publishes `pkg`: the manifest of the
/// package; leave to publish from a working tree with changes, unless the
/// options forbid it; the features for the package, if the options give
/// any; and the registry, if the options name one.
pub open spec fn publish_arguments(pkg: Package, opts: PublishArgs) -> Seq<Seq<char>> {
    seq!["publish"@, "--manifest-path"@, pkg.manifest_path@] + (if opts.no_dirty == Some(true) {
        Seq::<Seq<char>>::empty()
    } else {
        seq!["--allow-dirty"@]
    }) + (match opts.features_for(pkg.name@) {
        Some(features) => seq!["--features"@] + views(features),
        None => Seq::<Seq<char>>::empty(),
    }) + (match opts.registry {
        Some(name) => seq!["--registry"@, name@],
        None => Seq::<Seq<char>>::empty(),
    })
}

/// Looks up the features with which `package` is published.
fn features_of<'a>(list: &'a Vec<PackageFeatures>, package: &str) -> (found: Option<
    &'a Vec<String>,
>)
    ensures
        match found {
            Some(features) => find_features(list@, package@, 0) == Some(features@),
            None => find_features(list@, package@, 0) is None,
        },
{
    let mut i: usize = 0;
    while i < list.len()
        invariant
            i <= list.len(),
            find_features(list@, package@, 0) == find_features(list@, package@, i as int),
        decreases list.len() - i,
    {
        if str_eq(list[i].package.as_str(), package) {
            return Some(&list[i].features);
        }
        i += 1;
    }
    None
}

/// Appends `text` to `arguments`.
fn push_argument(arguments: &mut Vec<String>, text: &str)
    ensures
        views(final(arguments)@) == views(old(arguments)@).push(text@),
{
    let ghost before = arguments@;
    arguments.push(text.to_owned());
    assert(views(arguments@) =~= views(before).push(text@));
}

/// The arguments with which cargo publishes `pkg`.
pub fn publish_package(pkg: &Package, opts: &PublishArgs) -> (arguments: Vec<String>)
    ensures
        views(arguments@) == publish_arguments(*pkg, *opts),
{
    let mut arguments: Vec<String> = Vec::new();
    assert(views(arguments@) =~= Seq::<Seq<char>>::empty());
    push_argument(&mut arguments, "publish");
    push_argument(&mut arguments, "--manifest-path");
    push_argument(&mut arguments, pkg.manifest_path.as_str());
    let ghost head = views(arguments@);
    assert(head =~= seq!["publish"@, "--manifest-path"@, pkg.manifest_path@]);
    let no_dirty = match opts.no_dirty {
        Some(no_dirty) => no_dirty,
        None => false,
    };
    if !no_dirty {
        push_argument(&mut arguments, "--allow-dirty");
    }
    let ghost dirty = if opts.no_dirty == Some(true) {
        Seq::<Seq<char>>::empty()
    } else {
        seq!["--allow-dirty"@]
    };
    assert(views(arguments@) =~= head + dirty);
    let found = match &opts.features {
        Some(list) => features_of(list, pkg.name.as_str()),
        None => None,
    };
    let ghost chosen = match opts.features_for(pkg.name@) {
        Some(features) => seq!["--features"@] + views(features),
        None => Seq::<Seq<char>>::empty(),
    };
    match found {
        Some(features) => {
            push_argument(&mut arguments, "--features");
            let mut i: usize = 0;
            while i < features.len()
                invariant
                    i <= features.len(),
                    views(arguments@) == head + dirty + (seq!["--features"@] + views(
                        features@.take(i as int),
                    )),
                decreases features.len() - i,
            {
                push_argument(&mut arguments, features[i].as_str());
                assert(views(features@.take(i + 1)) =~= views(features@.take(i as int)).push(
                    features[i as int]@,
                ));
                assert(views(arguments@) =~= head + dirty + (seq!["--features"@] + views(
                    features@.take(i + 1),
                )));
                i += 1;
            }
            assert(features@.take(features.len() as int) == features@);
        },
        None => {},
    }
    assert(views(arguments@) =~= head + dirty + chosen);
    match &opts.registry {
        Some(name) => {
            push_argument(&mut arguments, "--registry");
            push_argument(&mut arguments, name.as_str());
            assert(views(arguments@) =~= head + dirty + chosen + seq!["--registry"@, name@]);
        },
        None => {
            assert(views(arguments@) =~= head + dirty + chosen + Seq::<Seq<char>>::empty());
        },
    }
    arguments
}

impl GraphModel {
    /// The name of the root of the workspace, if the workspace has a root
    /// that may be released to `target`.
    pub open spec fn releasable_root(self, target: Seq<char>) -> Option<Seq<char>> {
        if exists|a: int| self.is_member_at(a, Seq::empty()) && self.releasable(a, target) {
            let a = choose|a: int| self.is_member_at(a, Seq::empty()) && self.releasable(a, target);
            Some(self.packages[a].name@)
        } else {
            None
        }
    }
}

impl Graph {
    /// The root of the workspace: the member that lies in the workspace's
    /// own directory, if there is one.
    pub fn root_member(&self) -> (root: Option<usize>)
        ensures
            match root {
                Some(a) => self@.is_member_at(a as int, Seq::empty()),
                None => forall|a: int| !self@.is_member_at(a, Seq::empty()),
            },
    {
        proof {
            reveal_strlit("");
        }
        let found = self.member_by_path("");
        assert(""@ =~= Seq::<char>::empty());
        found
    }
}

/// The packages of a list of commands.
pub open spec fn packages_of(commands: Seq<PublishCommand>) -> Seq<usize> {
    commands.map_values(|c: PublishCommand| c.package)
}

/// `command` publishes the package at `package` with the options `opts`.
pub open spec fn command_for(
    command: PublishCommand,
    package: Package,
    opts: PublishArgs,
) -> bool {
    &&& command.name@ == package.name@
    &&& command.manifest_path@ == package.manifest_path@
    &&& views(command.arguments@) == publish_arguments(package, opts)
}

/// What a publication has come to.
pub struct PublishRunView {
    /// The commands of the publication, in the order in which they are run.
    pub commands: Seq<PublishCommand>,
    /// The number of commands that have run with success.
    pub position: nat,
    /// Whether a command has failed.
    pub failed: bool,
    /// The name of the root of the workspace, if it is among the packages
    /// to publish.
    pub root: Option<Seq<char>>,
    /// The name of the registry that the publication goes to, if it is not
    /// crates.io.
    pub registry: Option<Seq<char>>,
}

impl PublishRunView {
    /// A command is still to be run.
    pub open spec fn pending(self) -> bool {
        !self.failed && self.position < self.commands.len()
    }

    /// Every command has run with success.
    pub open spec fn complete(self) -> bool {
        !self.failed && self.position == self.commands.len()
    }

    /// The publication is the one of the workspace `g` with the options
    /// `opts`: it publishes the members that may be released, in publish
    /// order, each with the arguments that the options ask for.
    pub open spec fn plans(self, g: GraphModel, opts: PublishArgs) -> bool {
        &&& g.is_publish_order(packages_of(self.commands), opts.target())
        &&& forall|i: int|
            0 <= i < self.commands.len() ==> command_for(
                #[trigger] self.commands[i],
                g.packages[self.commands[i].package as int],
                opts,
            )
        &&& self.root == g.releasable_root(opts.target())
        &&& self.registry == match opts.registry {
            Some(name) => Some(name@),
            None => None,
        }
    }

    /// The name of the main package of the publication: the root of the
    /// workspace if it is published, else the package that was published
    /// last.
    pub open spec fn main_crate(self) -> Option<Seq<char>> {
        match self.root {
            Some(name) => Some(name),
            None => if self.position > 0 {
                Some(self.commands[self.position - 1].name@)
            } else {
                None
            },
        }
    }

    /// The name under which the release is shown.
    pub open spec fn release_name(self) -> Seq<char> {
        (match self.registry {
            Some(name) => name,
            None => "crates.io"@,
        }) + " packages ("@ + decimal_spec(self.position) + " packages published)"@
    }
}

/// A publication under way: the commands to run, and how far it has come.
///
/// The caller asks for the next command with [`PublishRun::next`], runs it,
/// and hands the outcome to [`PublishRun::record`], until there is no next
/// command.
#[derive(Debug)]
pub struct PublishRun {
    commands: Vec<PublishCommand>,
    position: usize,
    failed: bool,
    root: Option<String>,
    registry: Option<String>,
}

impl View for PublishRun {
    type V = PublishRunView;

    closed spec fn view(&self) -> PublishRunView {
        PublishRunView {
            commands: self.commands@,
            position: self.position as nat,
            failed: self.failed,
            root: match self.root {
                Some(name) => Some(name@),
                None => None,
            },
            registry: match self.registry {
                Some(name) => Some(name@),
                None => None,
            },
        }
    }
}

impl PublishRun {
    /// What holds of every publication: no more commands have run than
    /// there are.
    #[verifier::type_invariant]
    pub open spec fn valid(self) -> bool {
        self@.position <= self@.commands.len()
    }

    /// The command to run next, or `None` if all commands have run or one
    /// has failed.
    pub fn next(&self) -> (command: Option<&PublishCommand>)
        ensures
            self@.position <= self@.commands.len(),
            match command {
                Some(c) => self@.pending() && *c == self@.commands[self@.position as int],
                None => !self@.pending(),
            },
    {
        proof {
            use_type_invariant(self);
        }
        if !self.failed && self.position < self.commands.len() {
            Some(&self.commands[self.position])
        } else {
            None
        }
    }

    /// Takes note of the outcome of the command that [`PublishRun::next`]
    /// handed out.
    ///
    /// After a success the next command is due. After a failure no further
    /// command is handed out, and the error names the manifest of the
    /// package and, where cargo ran, its exit status and what it wrote to
    /// its standard error. An outcome that comes when no command is due is
    /// ignored.
    pub fn record(&mut self, outcome: PublishOutcome) -> (noted: Result<(), Error>)
        ensures
            final(self)@.commands == old(self)@.commands,
            final(self)@.root == old(self)@.root,
            final(self)@.registry == old(self)@.registry,
            !old(self)@.pending() ==> noted is Ok && final(self)@ == old(self)@,
            old(self)@.pending() ==> match outcome {
                PublishOutcome::Exited { success, status, stderr } => if success {
                    &&& noted is Ok
                    &&& final(self)@.position == old(self)@.position + 1
                    &&& !final(self)@.failed
                } else {
                    &&& final(self)@.failed
                    &&& final(self)@.position == old(self)@.position
                    &&& noted matches Err(
                        Error::CargoPublishStatus { status: s, manifest_path: p, stderr: e },
                    )
                    &&& s == status
                    &&& p@ == old(self)@.commands[old(self)@.position as int].manifest_path@
                    &&& e@ == utf8_lossy(stderr@)
                },
                PublishOutcome::NotRun { reason } => {
                    &&& final(self)@.failed
                    &&& final(self)@.position == old(self)@.position
                    &&& noted matches Err(Error::CargoPublish { inner, manifest_path })
                    &&& inner == reason
                    &&& manifest_path@ == old(
                        self,
                    )@.commands[old(self)@.position as int].manifest_path@
                },
            },
    {
        proof {
            use_type_invariant(&*self);
        }
        if self.failed || self.position >= self.commands.len() {
            return Ok(());
        }
        match outcome {
            PublishOutcome::Exited { success, status, stderr } => {
                if success {
                    self.position = self.position + 1;
                    Ok(())
                } else {
                    self.failed = true;
                    Err(
                        Error::cargo_publish_status(
                            status,
                            self.commands[self.position].manifest_path.as_str(),
                            &stderr,
                        ),
                    )
                }
            },
            PublishOutcome::NotRun { reason } => {
                self.failed = true;
                Err(
                    Error::cargo_publish(
                        reason,
                        self.commands[self.position].manifest_path.as_str(),
                    ),
                )
            },
        }
    }

    /// The name of the main package of the publication: the root of the
    /// workspace if it is published, else the package that was published
    /// last.
    pub fn main_crate(&self) -> (name: Option<&str>)
        ensures
            match name {
                Some(name) => self@.main_crate() == Some(name@),
                None => self@.main_crate() is None,
            },
    {
        proof {
            use_type_invariant(self);
        }
        match &self.root {
            Some(name) => Some(name.as_str()),
            None => if self.position > 0 {
                Some(self.commands[self.position - 1].name.as_str())
            } else {
                None
            },
        }
    }

    /// The number of packages that have been published.
    pub fn published(&self) -> (count: usize)
        ensures
            count == self@.position,
    {
        self.position
    }

    /// The record of the release, once every package has been published.
    ///
    /// There is none while commands are still to be run, after a failure,
    /// and where nothing was published and the root of the workspace is not
    /// to be published either. A release to crates.io can be looked at on
    /// the page that crates.io has for the main package.
    pub fn release(&self) -> (made: Result<Option<Release>, Error>)
        ensures
            match made {
                Ok(Some(release)) => {
                    &&& self@.complete()
                    &&& self@.main_crate() matches Some(main_crate)
                    &&& match self@.registry {
                        Some(_) => release.is(self@.release_name(), None),
                        None => package_url(CRATES_IO_PACKAGES@, main_crate) is Some && release.is(
                            self@.release_name(),
                            package_url(CRATES_IO_PACKAGES@, main_crate),
                        ),
                    }
                },
                Ok(None) => !self@.complete() || self@.main_crate() is None,
                Err(error) => {
                    &&& self@.complete()
                    &&& self@.registry is None
                    &&& self@.main_crate() matches Some(main_crate)
                    &&& package_url(CRATES_IO_PACKAGES@, main_crate) is None
                    &&& error is UrlError
                },
            },
    {
        proof {
            use_type_invariant(self);
        }
        if self.failed || self.position < self.commands.len() {
            return Ok(None);
        }
        let main_crate = match self.main_crate() {
            Some(name) => name,
            None => {
                return Ok(None);
            },
        };
        let mut name = String::from_str(
            match &self.registry {
                Some(name) => name.as_str(),
                None => "crates.io",
            },
        );
        name.append(" packages (");
        name.append(decimal(self.position).as_str());
        name.append(" packages published)");
        match &self.registry {
            Some(_) => match Release::new(name.as_str(), None, main_crate) {
                Ok(release) => Ok(Some(release)),
                Err(error) => Err(error),
            },
            None => match Release::new_crates_io_release(name.as_str(), main_crate) {
                Ok(release) => Ok(Some(release)),
                Err(error) => Err(error),
            },
        }
    }
}

/// Starts the publication of the workspace members that may be released to
/// the registry that the options name, or to crates.io if they name none.
///
/// The members are to be published one after the other, each after the
/// packages that it depends on.
pub fn publish(graph: &Graph, opts: &PublishArgs) -> (run: PublishRun)
    requires
        graph@.restrictions_supported(),
    ensures
        run@.position == 0,
        !run@.failed,
        run@.plans(graph@, *opts),
{
    let registry = match &opts.registry {
        Some(name) => Some(name.as_str()),
        None => None,
    };
    assert(target_registry(registry) == opts.target());
    let order = publish_order(graph, registry);
    let mut commands: Vec<PublishCommand> = Vec::new();
    let mut i: usize = 0;
    while i < order.len()
        invariant
            i <= order.len(),
            graph@.is_publish_order(order@, opts.target()),
            packages_of(commands@) == order@.take(i as int),
            forall|j: int|
                0 <= j < commands.len() ==> command_for(
                    #[trigger] commands[j],
                    graph@.packages[commands[j].package as int],
                    *opts,
                ),
        decreases order.len() - i,
    {
        let package = order[i];
        assert(graph@.releasable(order[i as int] as int, opts.target()));
        let pkg = graph.package(package);
        let ghost before = commands@;
        commands.push(
            PublishCommand {
                package,
                name: pkg.name.clone(),
                manifest_path: pkg.manifest_path.clone(),
                arguments: publish_package(pkg, opts),
            },
        );
        proof {
            assert(packages_of(commands@) =~= packages_of(before).push(package));
            assert(order@.take(i + 1) =~= order@.take(i as int).push(package));
        }
        i += 1;
    }
    assert(order@.take(order.len() as int) == order@);
    let root = match graph.root_member() {
        Some(a) => {
            let pkg = graph.package(a);
            proof {
                if exists|b: int|
                    graph@.is_member_at(b, Seq::empty()) && graph@.releasable(b, opts.target()) {
                    let b = choose|b: int|
                        graph@.is_member_at(b, Seq::empty()) && graph@.releasable(
                            b,
                            opts.target(),
                        );
                    assert(a == b);
                }
            }
            if package_is_publishable(pkg, registry) {
                Some(pkg.name.clone())
            } else {
                None
            }
        },
        None => None,
    };
    PublishRun { commands, position: 0, failed: false, root, registry: opts.registry.clone() }
}

/// The line by which a package is listed: its name, and its version in
/// round brackets.
pub open spec fn listing_line(pkg: Package) -> Seq<char> {
    pkg.name@ + "("@ + pkg.version@ + ")"@
}

/// `lines` lists the packages of `order`, one to a line.
pub open spec fn lists(lines: Seq<String>, g: GraphModel, order: Seq<usize>) -> bool {
    &&& lines.len() == order.len()
    &&& forall|i: int|
        0 <= i < lines.len() ==> (#[trigger] lines[i])@ == listing_line(g.packages[order[i] as int])
}

/// Lists the workspace members that may be released to the registry
/// `alternate_registry`, or to crates.io if it is `None`, in the order in
/// which they are to be published: one line for each member, with its name
/// and version.
pub fn list_packages_with_arguments(graph: &Graph, alternate_registry: Option<&str>) -> (lines:
    Vec<String>)
    requires
        graph@.restrictions_supported(),
    ensures
        exists|order: Seq<usize>|
            graph@.is_publish_order(order, target_registry(alternate_registry)) && #[trigger] lists(
                lines@,
                graph@,
                order,
            ),
{
    let order = publish_order(graph, alternate_registry);
    let mut lines: Vec<String> = Vec::new();
    let mut i: usize = 0;
    while i < order.len()
        invariant
            i <= order.len(),
            graph@.is_publish_order(order@, target_registry(alternate_registry)),
            lists(lines@, graph@, order@.take(i as int)),
        decreases order.len() - i,
    {
        assert(graph@.releasable(order[i as int] as int, target_registry(alternate_registry)));
        let pkg = graph.package(order[i]);
        let mut line = pkg.name.clone();
        line.append("(");
        line.append(pkg.version.as_str());
        line.append(")");
        lines.push(line);
        i += 1;
    }
    assert(order@.take(order.len() as int) == order@);
    lines
}

/// Lists the workspace members that may be released to crates.io. See
/// [`list_packages_with_arguments`].
pub fn list_packages(graph: &Graph) -> (lines: Vec<String>)
    requires
        graph@.restrictions_supported(),
    ensures
        exists|order: Seq<usize>|
            graph@.is_publish_order(order, target_registry(None)) && #[trigger] lists(
                lines@,
                graph@,
                order,
            ),
{
    list_packages_with_arguments(graph, None)
}

} // verus!
