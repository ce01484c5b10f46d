//! Which links and which packages stand in the way of a release.

use vstd::prelude::*;
use crate::graph::{Graph, GraphModel, Package, PackagePublish, PackageSource};
use crate::text::str_eq;

verus! {

/// The name by which a publish restriction refers to crates.io.
pub const CRATES_IO: &'static str = "crates-io";

/// The registry that a release goes to: crates.io unless another is named.
pub open spec fn target_registry(registry: Option<&str>) -> Seq<char> {
    match registry {
        Some(name) => name@,
        None => CRATES_IO@,
    }
}

/// A package from this source can be had by whoever installs a package that
/// depends on it: it is on crates.io already, or it is a workspace member,
/// which is published before the packages that depend on it.
pub open spec fn target_source_is_publishable_spec(source: PackageSource) -> bool {
    source is Workspace || source is CratesIo
}

/// Is the source of the target of a dependency publishable?
pub fn target_source_is_publishable(source: PackageSource) -> (publishable: bool)
    ensures
        publishable == target_source_is_publishable_spec(source),
{
    match source {
        PackageSource::Workspace => true,
        PackageSource::CratesIo => true,
        _ => false,
    }
}

impl PackagePublish {
    /// The restriction names at most one registry. Restrictions to several
    /// registries are not handled.
    pub open spec fn supported_spec(self) -> bool {
        match self {
            PackagePublish::Unrestricted => true,
            PackagePublish::Registries(names) => names@.len() <= 1,
        }
    }

    /// Whether the restriction names at most one registry.
    pub fn supported(&self) -> (supported: bool)
        ensures
            supported == self.supported_spec(),
    {
        match self {
            PackagePublish::Unrestricted => true,
            PackagePublish::Registries(names) => names.len() <= 1,
        }
    }

    /// The restriction allows a release to the registry called `target`: it
    /// is no restriction at all, or it names that registry and no other.
    pub open spec fn allows(self, target: Seq<char>) -> bool {
        match self {
            PackagePublish::Unrestricted => true,
            PackagePublish::Registries(names) => names@.len() == 1 && names@[0]@ == target,
        }
    }
}

impl GraphModel {
    /// Link `i` does not keep the package it starts from from being
    /// published: it is a dev-only link, or its target can be had from
    /// crates.io or is a workspace member.
    pub open spec fn link_is_publishable(self, i: int) -> bool {
        self.links[i].dev_only || target_source_is_publishable_spec(
            self.packages[self.links[i].to as int].source,
        )
    }

    /// Package `a` is a workspace member that may be released to `target`.
    pub open spec fn releasable(self, a: int, target: Seq<char>) -> bool {
        &&& 0 <= a < self.size()
        &&& self.packages[a].in_workspace_spec()
        &&& self.packages[a].publish.allows(target)
    }

    /// The publish restriction of every workspace member names at most one
    /// registry.
    pub open spec fn restrictions_supported(self) -> bool {
        forall|a: int|
            0 <= a < self.size() && (#[trigger] self.packages[a]).in_workspace_spec()
                ==> self.packages[a].publish.supported_spec()
    }
}

/// Will this link prevent the package it starts from from being published?
///
/// Dev-only links never do. Any other link must lead to a package that is
/// on crates.io already or that is a workspace member.
pub fn link_is_publishable(graph: &Graph, link: usize) -> (publishable: bool)
    requires
        link < graph@.links.len(),
    ensures
        publishable == graph@.link_is_publishable(link as int),
{
    let l = graph.link(link);
    l.dev_only || target_source_is_publishable(graph.package(l.to).source)
}

/// Is a particular package publishable to `registry`, or to crates.io if
/// `registry` is `None`?
///
/// A package is publishable if its publication is unrestricted or if it is
/// restricted to exactly the registry in question.
pub fn package_is_publishable(pkg: &Package, registry: Option<&str>) -> (publishable: bool)
    requires
        pkg.publish.supported_spec(),
    ensures
        publishable == pkg.publish.allows(target_registry(registry)),
{
    match &pkg.publish {
        PackagePublish::Unrestricted => true,
        PackagePublish::Registries(names) => {
            if names.len() == 1 {
                let target = match registry {
                    Some(name) => name,
                    None => CRATES_IO,
                };
                str_eq(names[0].as_str(), target)
            } else {
                false
            }
        },
    }
}

impl Graph {
    /// Whether the publish restriction of every workspace member names at
    /// most one registry.
    pub fn restrictions_supported(&self) -> (supported: bool)
        ensures
            supported == self@.restrictions_supported(),
    {
        let n = self.package_count();
        let mut a: usize = 0;
        while a < n
            invariant
                a <= n,
                n == self@.size(),
                forall|i: int|
                    0 <= i < a && (#[trigger] self@.packages[i]).in_workspace_spec()
                        ==> self@.packages[i].publish.supported_spec(),
            decreases n - a,
        {
            let pkg = self.package(a);
            if pkg.in_workspace() && !pkg.publish.supported() {
                return false;
            }
            a += 1;
        }
        true
    }
}

} // verus!
