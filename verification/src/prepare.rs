//! The preparation of a release: the new version goes into the manifest of
//! every workspace member.

use std::collections::HashMap;
use vstd::prelude::*;
use crate::error::Error;
use crate::graph::{Graph, GraphModel};
use crate::itertools::{grouped, lemma_grouped_from_pairs, Itertools};
use crate::manifest::{
    dependencies_settable, set_dependencies_version, set_package_version,
    has_package_table, with_dependencies_version, with_package_version,
};
use crate::toml::{document_root, TomlItem};

verus! {

broadcast use vstd::std_specs::hash::group_hash_axioms;

impl GraphModel {
    /// Link `i` is one whose declaration is brought up to the released
    /// version: it leads to a workspace member and is not a dev-only link
    /// without a version requirement.
    pub open spec fn link_is_released(self, i: int) -> bool {
        &&& !self.links[i].dev_only || self.links[i].has_version_req
        &&& self.packages[self.links[i].to as int].in_workspace_spec()
    }

    /// The released links among the first `upto`, each with the package that
    /// it starts from.
    pub open spec fn released_pairs(self, upto: int) -> Seq<(usize, usize)>
        decreases upto,
    {
        if upto <= 0 {
            Seq::empty()
        } else {
            let rest = self.released_pairs(upto - 1);
            if self.link_is_released(upto - 1) {
                rest.push((self.links[upto - 1].from, (upto - 1) as usize))
            } else {
                rest
            }
        }
    }

    /// The released links that start from `member`, in the order of the
    /// graph.
    pub open spec fn release_links(self, member: usize) -> Seq<usize> {
        grouped(self.released_pairs(self.links.len() as int), member)
    }

    proof fn lemma_released_pairs(self, upto: int)
        requires
            self.wf(),
            0 <= upto <= self.links.len(),
        ensures
            forall|k: int|
                0 <= k < self.released_pairs(upto).len() ==> {
                    let pair = #[trigger] self.released_pairs(upto)[k];
                    &&& pair.1 < upto
                    &&& self.link_is_released(pair.1 as int)
                    &&& self.links[pair.1 as int].from == pair.0
                },
        decreases upto,
    {
        if upto > 0 {
            self.lemma_released_pairs(upto - 1);
            let rest = self.released_pairs(upto - 1);
            assert forall|k: int| 0 <= k < self.released_pairs(upto).len() implies {
                let pair = #[trigger] self.released_pairs(upto)[k];
                &&& pair.1 < upto
                &&& self.link_is_released(pair.1 as int)
                &&& self.links[pair.1 as int].from == pair.0
            } by {
                if k < rest.len() {
                    assert(self.released_pairs(upto)[k] == rest[k]);
                }
            }
        }
    }

    /// Every link that `release_links` lists for `member` is a released link
    /// of the graph that starts from `member`.
    pub proof fn lemma_release_links(self, member: usize)
        requires
            self.wf(),
        ensures
            forall|i: int|
                0 <= i < self.release_links(member).len() ==> {
                    let link = #[trigger] self.release_links(member)[i];
                    &&& link < self.links.len()
                    &&& self.link_is_released(link as int)
                    &&& self.links[link as int].from == member
                },
    {
        let pairs = self.released_pairs(self.links.len() as int);
        self.lemma_released_pairs(self.links.len() as int);
        lemma_grouped_from_pairs(pairs, member);
        assert forall|i: int| 0 <= i < self.release_links(member).len() implies {
            let link = #[trigger] self.release_links(member)[i];
            &&& link < self.links.len()
            &&& self.link_is_released(link as int)
            &&& self.links[link as int].from == member
        } by {
            let link = self.release_links(member)[i];
            let k = choose|k: int| 0 <= k < pairs.len() && #[trigger] pairs[k] == (member, link);
            assert(pairs[k].1 == link);
        }
    }
}

/// Groups the released links by the package that they start from.
pub fn link_map(graph: &Graph) -> (lookup: HashMap<usize, Vec<usize>>)
    ensures
        forall|member: usize| #[trigger]
            lookup@.contains_key(member) <==> graph@.release_links(member).len() > 0,
        forall|member: usize| #[trigger]
            lookup@.contains_key(member) ==> lookup@[member]@ == graph@.release_links(member),
{
    let count = graph.link_count();
    let mut pairs: Vec<(usize, usize)> = Vec::new();
    let mut i: usize = 0;
    while i < count
        invariant
            i <= count,
            count == graph@.links.len(),
            pairs@ == graph@.released_pairs(i as int),
        decreases count - i,
    {
        let link = graph.link(i);
        if (!link.dev_only || link.has_version_req) && graph.package(link.to).in_workspace() {
            pairs.push((link.from, i));
        }
        i += 1;
    }
    pairs.into_group_map()
}

/// What becomes of a manifest when the links `links[from..]` are released
/// one after the other: the manifest with the version `version` entered for
/// each, or the name of the first dependency whose version cannot be set.
pub open spec fn with_links_released(
    root: TomlItem,
    g: GraphModel,
    links: Seq<usize>,
    from: int,
    version: Seq<char>,
) -> Result<TomlItem, Seq<char>>
    decreases links.len() - from,
{
    if from >= links.len() {
        Ok(root)
    } else {
        let link = g.links[links[from] as int];
        if dependencies_settable(root, link.kind, link.dep_name@) {
            with_links_released(
                with_dependencies_version(root, link.kind, link.dep_name@, version),
                g,
                links,
                from + 1,
                version,
            )
        } else {
            Err(link.dep_name@)
        }
    }
}

/// Why a manifest cannot be prepared.
pub enum PrepareFailure {
    /// The manifest has no `package` table.
    NoPackageTable,
    /// The `package` table holds no version.
    NoVersion,
    /// The version of the dependency of this name cannot be set.
    Dependency(Seq<char>),
}

/// What becomes of the manifest of `member` in a release of `version`: the
/// manifest with the version of its package set and with that version
/// entered for each released link that starts from `member`; or why the
/// manifest cannot be prepared: for want of a `package` table, for want of
/// a version in it, or for the first dependency whose version cannot be
/// set.
pub open spec fn prepared(root: TomlItem, g: GraphModel, member: usize, version: Seq<char>) -> Result<
    TomlItem,
    PrepareFailure,
> {
    match with_package_version(root, version) {
        Some(first) => match with_links_released(first, g, g.release_links(member), 0, version) {
            Ok(last) => Ok(last),
            Err(name) => Err(PrepareFailure::Dependency(name)),
        },
        None => if has_package_table(root) {
            Err(PrepareFailure::NoVersion)
        } else {
            Err(PrepareFailure::NoPackageTable)
        },
    }
}

/// The error says of the manifest at `path` what `failure` says: that it
/// lacks its `package` table, that the table lacks its `version`, or that
/// the version of a dependency could not be set to `version`.
pub open spec fn is_prepare_error(
    error: Error,
    path: Seq<char>,
    failure: PrepareFailure,
    version: Seq<char>,
) -> bool {
    error matches Error::CargoTomlError { inner, manifest_path } && manifest_path@ == path
        && match failure {
        PrepareFailure::NoPackageTable => inner.is_no_table("package"@),
        PrepareFailure::NoVersion => inner.is_no_value("version"@),
        PrepareFailure::Dependency(name) => inner.is_set_version(name, version),
    }
}

/// Prepares the manifest of the package `member` for the release of
/// `next_release_version`.
///
/// The version of the package becomes the new version. So does the version
/// of every dependency on a workspace member that the manifest declares,
/// under the name that the manifest gives it, in the dependency table of
/// its type at top level and under `target`; a dependency that is only a
/// dev dependency and states no version is left alone. Fails if the
/// manifest has no `package` table or no version in it, and leaves it as it
/// is then; fails also if the version of a dependency cannot be set: the
/// manifest may then have been changed in part and is to be discarded.
pub fn prepare(
    graph: &Graph,
    member: usize,
    manifest: &mut toml_edit::DocumentMut,
    next_release_version: &str,
) -> (done: Result<(), Error>)
    requires
        member < graph@.packages.len(),
    ensures
        match done {
            Ok(()) => prepared(
                document_root(*old(manifest)),
                graph@,
                member,
                next_release_version@,
            ) == Ok::<TomlItem, PrepareFailure>(document_root(*final(manifest))),
            Err(error) => prepared(
                document_root(*old(manifest)),
                graph@,
                member,
                next_release_version@,
            ) matches Err(failure) && is_prepare_error(
                error,
                graph@.packages[member as int].manifest_path@,
                failure,
                next_release_version@,
            ),
        },
        with_package_version(document_root(*old(manifest)), next_release_version@) is None
            ==> document_root(*final(manifest)) == document_root(*old(manifest)),
        document_root(*final(manifest)) is Table <==> document_root(*old(manifest)) is Table,
{
    let path = graph.package(member).manifest_path.as_str();
    let lookup = link_map(graph);
    match set_package_version(manifest, next_release_version) {
        Ok(()) => {},
        Err(inner) => {
            return Err(inner.into_error(path));
        },
    }
    let ghost first = document_root(*manifest);
    match lookup.get(&member) {
        Some(links) => {
            assert(links@ == graph@.release_links(member));
            proof {
                use_type_invariant(graph);
                graph@.lemma_release_links(member);
            }
            let mut i: usize = 0;
            while i < links.len()
                invariant
                    i <= links.len(),
                    links@ == graph@.release_links(member),
                    forall|j: int| 0 <= j < links.len() ==> (#[trigger] links[j]) < graph@.links.len(),
                    with_links_released(first, graph@, links@, 0, next_release_version@)
                        == with_links_released(
                        document_root(*manifest),
                        graph@,
                        links@,
                        i as int,
                        next_release_version@,
                    ),
                    path@ == graph@.packages[member as int].manifest_path@,
                    document_root(*manifest) is Table,
                    document_root(*old(manifest)) is Table,
                    Some(first) == with_package_version(
                        document_root(*old(manifest)),
                        next_release_version@,
                    ),
                decreases links.len() - i,
            {
                let link = graph.link(links[i]);
                match set_dependencies_version(
                    manifest,
                    next_release_version,
                    link.kind,
                    link.dep_name.as_str(),
                ) {
                    Ok(()) => {},
                    Err(inner) => {
                        return Err(inner.into_error(path));
                    },
                }
                i += 1;
            }
            Ok(())
        },
        None => {
            assert(graph@.release_links(member).len() == 0);
            Ok(())
        },
    }
}

} // verus!
