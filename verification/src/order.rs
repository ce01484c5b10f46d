//! Dependency cycles and the order in which packages are published.

use vstd::prelude::*;
use crate::graph::{Graph, GraphModel};
use crate::publishable::{package_is_publishable, target_registry};
use crate::reach::{cell, closure, is_closure};

verus! {

impl GraphModel {
    /// Packages `a` and `b` are two different packages that depend on each
    /// other. A package that depends on itself is on no cycle by that alone.
    pub open spec fn on_cycle(self, a: int, b: int) -> bool {
        a != b && self.reaches(true, a, b) && self.reaches(true, b, a)
    }

    /// Some two packages depend on each other.
    pub open spec fn has_cycle(self) -> bool {
        exists|a: int, b: int| #[trigger] self.on_cycle(a, b)
    }

    /// No package depends on itself, dev-only links left aside.
    pub open spec fn acyclic(self) -> bool {
        forall|a: int| !#[trigger] self.reaches(false, a, a)
    }

    /// Package `a` needs package `b` to be built: it is `b` or depends on it,
    /// dev-only links left aside.
    pub open spec fn needs(self, a: int, b: int) -> bool {
        a == b || self.reaches(false, a, b)
    }

    /// The number of packages below `upto` that package `a` needs.
    pub open spec fn rank_below(self, a: int, upto: int) -> nat
        decreases upto,
    {
        if upto <= 0 {
            0
        } else {
            self.rank_below(a, upto - 1) + if self.needs(a, upto - 1) {
                1nat
            } else {
                0nat
            }
        }
    }

    /// The number of packages that package `a` needs, itself among them.
    pub open spec fn rank(self, a: int) -> nat {
        self.rank_below(a, self.size())
    }

    /// Package `a` comes before package `b` in dependency order: it needs
    /// fewer packages, or as many and has the lower index.
    pub open spec fn precedes(self, a: int, b: int) -> bool {
        self.rank(a) < self.rank(b) || (self.rank(a) == self.rank(b) && a < b)
    }

    /// `order` lists packages in dependency order, none twice.
    pub open spec fn in_dependency_order(self, order: Seq<usize>) -> bool {
        forall|p: int, q: int|
            0 <= p < q < order.len() ==> self.precedes(
                (#[trigger] order[p]) as int,
                (#[trigger] order[q]) as int,
            )
    }

    /// `order` is the publish order for a release to the registry called
    /// `target`: it lists the workspace members that may be released to
    /// `target`, all of them, in dependency order.
    pub open spec fn is_publish_order(self, order: Seq<usize>, target: Seq<char>) -> bool {
        &&& forall|p: int|
            0 <= p < order.len() ==> self.releasable((#[trigger] order[p]) as int, target)
        &&& forall|a: usize| self.releasable(a as int, target) ==> order.contains(a)
        &&& self.in_dependency_order(order)
    }

    /// Link `i` is not dev-only and leads from the package at position `p`
    /// of `order` to the package at position `q`.
    pub open spec fn link_between(self, order: Seq<usize>, i: int, p: int, q: int) -> bool {
        &&& 0 <= i < self.links.len()
        &&& !self.links[i].dev_only
        &&& 0 <= p < order.len()
        &&& 0 <= q < order.len()
        &&& order[p] == self.links[i].from
        &&& order[q] == self.links[i].to
    }

    /// In `order`, the target of every link that is not dev-only comes
    /// before the package that the link starts from, unless the target
    /// depends on that package in turn.
    pub open spec fn respects_links(self, order: Seq<usize>) -> bool {
        forall|i: int, p: int, q: int| #[trigger]
            self.link_between(order, i, p, q) && !self.reaches(
                false,
                order[q] as int,
                order[p] as int,
            ) ==> q < p
    }

    proof fn lemma_rank_bound(self, a: int, upto: int)
        requires
            0 <= upto,
        ensures
            self.rank_below(a, upto) <= upto,
        decreases upto,
    {
        if upto > 0 {
            self.lemma_rank_bound(a, upto - 1);
        }
    }

    proof fn lemma_rank_le(self, a: int, b: int, upto: int)
        requires
            forall|v: int| 0 <= v < upto && self.needs(b, v) ==> self.needs(a, v),
        ensures
            self.rank_below(b, upto) <= self.rank_below(a, upto),
        decreases upto,
    {
        if upto > 0 {
            self.lemma_rank_le(a, b, upto - 1);
        }
    }

    proof fn lemma_rank_lt(self, a: int, b: int, x: int, upto: int)
        requires
            forall|v: int| 0 <= v < upto && self.needs(b, v) ==> self.needs(a, v),
            0 <= x < upto,
            self.needs(a, x),
            !self.needs(b, x),
        ensures
            self.rank_below(b, upto) < self.rank_below(a, upto),
        decreases upto,
    {
        if upto - 1 == x {
            self.lemma_rank_le(a, b, upto - 1);
        } else {
            self.lemma_rank_lt(a, b, x, upto - 1);
        }
    }

    /// A package comes after every package that it depends on and that does
    /// not depend on it in turn.
    pub proof fn lemma_dependency_precedes(self, a: int, b: int)
        requires
            self.reaches(false, a, b),
            !self.reaches(false, b, a),
        ensures
            self.precedes(b, a),
    {
        self.lemma_reaches_in_range(false, a, b);
        assert forall|v: int| 0 <= v < self.size() && self.needs(b, v) implies self.needs(a, v) by {
            if v != b {
                self.lemma_reaches_transitive(false, a, b, v);
            }
        }
        self.lemma_rank_lt(a, b, a, self.size());
    }
}

impl GraphModel {
    /// A list in dependency order respects the links.
    pub proof fn lemma_order_respects_links(self, order: Seq<usize>)
        requires
            self.wf(),
            self.in_dependency_order(order),
        ensures
            self.respects_links(order),
    {
        assert forall|i: int, p: int, q: int| #[trigger]
            self.link_between(order, i, p, q) && !self.reaches(
                false,
                order[q] as int,
                order[p] as int,
            ) implies q < p by {
            let from = order[p] as int;
            let to = order[q] as int;
            assert(self.link_wf(self.links[i]));
            assert(self.link_joins(i, false, from, to));
            self.lemma_edge_reaches(false, from, to);
            self.lemma_dependency_precedes(from, to);
            if p < q {
                assert(self.precedes(order[p] as int, order[q] as int));
            }
        }
    }

    /// In a list in dependency order, a package comes after every package of
    /// the list that it depends on, be it through packages that the list
    /// does not hold, unless that package depends on it in turn.
    pub proof fn lemma_order_respects_dependencies(self, order: Seq<usize>, p: int, q: int)
        requires
            self.in_dependency_order(order),
            0 <= p < order.len(),
            0 <= q < order.len(),
            self.reaches(false, order[p] as int, order[q] as int),
            !self.reaches(false, order[q] as int, order[p] as int),
        ensures
            q < p,
    {
        self.lemma_dependency_precedes(order[p] as int, order[q] as int);
        if p < q {
            assert(self.precedes(order[p] as int, order[q] as int));
        }
    }

    /// Where no package depends on itself, dev-only links left aside, a list
    /// in dependency order names the target of every link that is not
    /// dev-only before the package that the link starts from.
    pub proof fn lemma_acyclic_order(self, order: Seq<usize>, i: int, p: int, q: int)
        requires
            self.wf(),
            self.acyclic(),
            self.in_dependency_order(order),
            self.link_between(order, i, p, q),
        ensures
            q < p,
    {
        let from = order[p] as int;
        let to = order[q] as int;
        assert(self.link_wf(self.links[i]));
        assert(self.link_joins(i, false, from, to));
        self.lemma_edge_reaches(false, from, to);
        if self.reaches(false, to, from) {
            self.lemma_reaches_transitive(false, from, to, from);
            assert(self.reaches(false, from, from));
        }
        self.lemma_order_respects_links(order);
    }
}

impl GraphModel {
    proof fn lemma_orders_agree(self, first: Seq<usize>, second: Seq<usize>, target: Seq<char>, k: int)
        requires
            self.is_publish_order(first, target),
            self.is_publish_order(second, target),
            0 <= k <= first.len(),
        ensures
            k <= second.len(),
            first.take(k) == second.take(k),
        decreases k,
    {
        if k > 0 {
            self.lemma_orders_agree(first, second, target, k - 1);
            let a = first[k - 1];
            assert(first.take(k - 1) == second.take(k - 1));
            assert forall|i: int| 0 <= i < k - 1 implies first[i] == second[i] by {
                assert(first.take(k - 1)[i] == second.take(k - 1)[i]);
            }
            assert(self.releasable(a as int, target));
            assert(second.contains(a));
            let j = choose|j: int| 0 <= j < second.len() && second[j] == a;
            if j < k - 1 {
                assert(self.precedes(first[j] as int, first[k - 1] as int));
            }
            let b = second[k - 1];
            assert(self.releasable(b as int, target));
            assert(first.contains(b));
            let i = choose|i: int| 0 <= i < first.len() && first[i] == b;
            if i < k - 1 {
                assert(self.precedes(second[i] as int, second[k - 1] as int));
            }
            if j > k - 1 {
                assert(self.precedes(second[k - 1] as int, second[j] as int));
                if i > k - 1 {
                    assert(self.precedes(first[k - 1] as int, first[i] as int));
                }
            }
            assert(first.take(k) =~= first.take(k - 1).push(a));
            assert(second.take(k) =~= second.take(k - 1).push(b));
        }
    }

    /// There is one publish order only: two lists that both are the publish
    /// order for a release to `target` are the same list.
    pub proof fn lemma_publish_order_unique(
        self,
        first: Seq<usize>,
        second: Seq<usize>,
        target: Seq<char>,
    )
        requires
            self.is_publish_order(first, target),
            self.is_publish_order(second, target),
        ensures
            first == second,
    {
        self.lemma_orders_agree(first, second, target, first.len() as int);
        self.lemma_orders_agree(second, first, target, second.len() as int);
        assert(first.take(first.len() as int) == first);
        assert(second.take(second.len() as int) == second);
    }
}

/// Looks for two packages that depend on each other, dev-only links
/// included, and returns the first such pair, going by the index of the
/// first package and then by that of the second.
///
/// A cycle takes two packages. A package with a link to itself, as one has
/// that names itself among its dev dependencies, is not reported unless it
/// also lies on a cycle with another package: such a workspace counts as
/// free of cycles.
pub fn find_cycle(graph: &Graph) -> (found: Option<(usize, usize)>)
    ensures
        found is Some <==> graph@.has_cycle(),
        found matches Some((a, b)) ==> {
            &&& graph@.on_cycle(a as int, b as int)
            &&& forall|c: int, d: int| #[trigger]
                graph@.on_cycle(c, d) ==> a < c || (a == c && b <= d)
        },
{
    let n = graph.package_count();
    let matrix = closure(graph, true);
    proof {
        assert forall|c: int, d: int| #[trigger] graph@.on_cycle(c, d) implies 0 <= c < n && 0
            <= d < n by {
            graph@.lemma_reaches_in_range(true, c, d);
        }
    }
    let mut a: usize = 0;
    while a < n
        invariant
            a <= n,
            n == graph@.size(),
            is_closure(matrix@, graph@, true),
            forall|c: int, d: int| #[trigger] graph@.on_cycle(c, d) ==> 0 <= c < n && 0 <= d < n,
            forall|c: int, d: int| 0 <= c < a ==> !#[trigger] graph@.on_cycle(c, d),
        decreases n - a,
    {
        let mut b: usize = 0;
        while b < n
            invariant
                b <= n,
                a < n,
                n == graph@.size(),
                is_closure(matrix@, graph@, true),
                forall|c: int, d: int|
                    #[trigger] graph@.on_cycle(c, d) ==> 0 <= c < n && 0 <= d < n,
                forall|c: int, d: int| 0 <= c < a ==> !#[trigger] graph@.on_cycle(c, d),
                forall|d: int| 0 <= d < b ==> !#[trigger] graph@.on_cycle(a as int, d),
            decreases n - b,
        {
            assert(matrix[a as int][b as int] == cell(matrix@, a as int, b as int));
            assert(matrix[b as int][a as int] == cell(matrix@, b as int, a as int));
            if a != b && matrix[a][b] && matrix[b][a] {
                assert(graph@.on_cycle(a as int, b as int));
                return Some((a, b));
            }
            b += 1;
        }
        a += 1;
    }
    None
}

/// Counts, for every package, the packages that it needs.
fn ranks(graph: &Graph) -> (ranks: Vec<usize>)
    ensures
        ranks.len() == graph@.size(),
        forall|a: int| 0 <= a < ranks.len() ==> #[trigger] ranks[a] == graph@.rank(a),
{
    let n = graph.package_count();
    let matrix = closure(graph, false);
    let mut ranks: Vec<usize> = Vec::new();
    let mut a: usize = 0;
    while a < n
        invariant
            a <= n,
            n == graph@.size(),
            is_closure(matrix@, graph@, false),
            ranks.len() == a,
            forall|i: int| 0 <= i < a ==> #[trigger] ranks[i] == graph@.rank(i),
        decreases n - a,
    {
        let mut count: usize = 0;
        let mut b: usize = 0;
        while b < n
            invariant
                b <= n,
                a < n,
                n == graph@.size(),
                is_closure(matrix@, graph@, false),
                count == graph@.rank_below(a as int, b as int),
                count <= b,
            decreases n - b,
        {
            assert(matrix[a as int][b as int] == cell(matrix@, a as int, b as int));
            if a == b || matrix[a][b] {
                count += 1;
            }
            b += 1;
        }
        ranks.push(count);
        a += 1;
    }
    ranks
}

/// Lists all packages of the graph so that each comes after the packages
/// that it depends on, dev-only links left aside.
///
/// Packages are ordered by the number of packages they need; among packages
/// that need equally many, by index. Where two packages depend on each other
/// the order between them is settled in the same way.
pub fn dependency_order(graph: &Graph) -> (order: Vec<usize>)
    ensures
        order.len() == graph@.size(),
        forall|p: int| 0 <= p < order.len() ==> (#[trigger] order[p]) < graph@.size(),
        forall|a: usize| a < graph@.size() ==> order@.contains(a),
        graph@.in_dependency_order(order@),
        graph@.respects_links(order@),
{
    let n = graph.package_count();
    let ranks = ranks(graph);
    let mut order: Vec<usize> = Vec::new();
    let mut a: usize = 0;
    while a < n
        invariant
            a <= n,
            n == graph@.size(),
            ranks.len() == n,
            forall|i: int| 0 <= i < n ==> #[trigger] ranks[i] == graph@.rank(i),
            order.len() == a,
            forall|p: int| 0 <= p < order.len() ==> (#[trigger] order[p]) < a,
            forall|v: usize| v < a ==> order@.contains(v),
            graph@.in_dependency_order(order@),
        decreases n - a,
    {
        let mut p: usize = 0;
        while p < order.len() && (ranks[order[p]] <= ranks[a])
            invariant
                p <= order.len(),
                a < n,
                n == graph@.size(),
                ranks.len() == n,
                forall|i: int| 0 <= i < n ==> #[trigger] ranks[i] == graph@.rank(i),
                forall|q: int| 0 <= q < order.len() ==> (#[trigger] order[q]) < a,
                forall|v: usize| v < a ==> order@.contains(v),
                graph@.in_dependency_order(order@),
                forall|q: int| 0 <= q < p ==> graph@.precedes((#[trigger] order[q]) as int, a as int),
            decreases order.len() - p,
        {
            p += 1;
        }
        let ghost before = order@;
        order.insert(p, a);
        proof {
            before.insert_ensures(p as int, a);
            let after = order@;
            assert forall|i: int, j: int| 0 <= i < j < after.len() implies graph@.precedes(
                (#[trigger] after[i]) as int,
                (#[trigger] after[j]) as int,
            ) by {
                if j < p {
                    assert(after[i] == before[i] && after[j] == before[j]);
                } else if j == p {
                    assert(after[i] == before[i]);
                } else if i < p {
                    assert(after[i] == before[i] && after[j] == before[j - 1]);
                } else if i == p {
                    assert(after[j] == before[j - 1]);
                    assert(graph@.precedes(a as int, before[p as int] as int));
                    if j - 1 > p {
                        assert(graph@.precedes(before[p as int] as int, before[j - 1] as int));
                    }
                } else {
                    assert(after[i] == before[i - 1] && after[j] == before[j - 1]);
                }
            }
            assert forall|q: int| 0 <= q < after.len() implies (#[trigger] after[q]) < a + 1 by {
                if q < p {
                    assert(after[q] == before[q]);
                } else if q > p {
                    assert(after[q] == before[q - 1]);
                }
            }
            assert forall|v: usize| v < a + 1 implies after.contains(v) by {
                if v == a {
                    assert(after[p as int] == a);
                } else {
                    assert(before.contains(v));
                    let q = choose|q: int| 0 <= q < before.len() && before[q] == v;
                    if q < p {
                        assert(after[q] == before[q]);
                    } else {
                        assert(after[q + 1] == before[q]);
                    }
                }
            }
        }
        a += 1;
    }
    proof {
        graph@.lemma_order_respects_links(order@);
    }
    order
}

/// Lists the workspace members that may be released to `registry` (to
/// crates.io if it is `None`) in the order in which they are to be
/// published: each after the packages that it depends on.
pub fn publish_order(graph: &Graph, registry: Option<&str>) -> (order: Vec<usize>)
    requires
        graph@.restrictions_supported(),
    ensures
        graph@.is_publish_order(order@, target_registry(registry)),
        graph@.respects_links(order@),
        graph@.acyclic() ==> forall|i: int, p: int, q: int| #[trigger]
            graph@.link_between(order@, i, p, q) ==> q < p,
{
    let all = dependency_order(graph);
    let mut order: Vec<usize> = Vec::new();
    let mut i: usize = 0;
    while i < all.len()
        invariant
            i <= all.len(),
            graph@.restrictions_supported(),
            all.len() == graph@.size(),
            forall|p: int| 0 <= p < all.len() ==> (#[trigger] all[p]) < graph@.size(),
            graph@.in_dependency_order(all@),
            forall|p: int|
                0 <= p < order.len() ==> graph@.releasable(
                    (#[trigger] order[p]) as int,
                    target_registry(registry),
                ),
            forall|p: int|
                0 <= p < order.len() ==> exists|q: int| 0 <= q < i && all[q] == #[trigger] order[p],
            forall|q: int|
                0 <= q < i && graph@.releasable((#[trigger] all[q]) as int, target_registry(registry))
                    ==> order@.contains(all[q]),
            graph@.in_dependency_order(order@),
        decreases all.len() - i,
    {
        let a = all[i];
        let pkg = graph.package(a);
        if pkg.in_workspace() && package_is_publishable(pkg, registry) {
            let ghost before = order@;
            order.push(a);
            proof {
                assert forall|p: int, q: int| 0 <= p < q < order.len() implies graph@.precedes(
                    (#[trigger] order[p]) as int,
                    (#[trigger] order[q]) as int,
                ) by {
                    if q == order.len() - 1 {
                        let at = choose|at: int| 0 <= at < i && all[at] == before[p];
                        assert(graph@.precedes(all[at] as int, all[i as int] as int));
                    } else {
                        assert(order[p] == before[p] && order[q] == before[q]);
                    }
                }
                assert forall|p: int| 0 <= p < order.len() implies exists|q: int|
                    0 <= q < i + 1 && all[q] == #[trigger] order[p] by {
                    if p == order.len() - 1 {
                        assert(all[i as int] == order[p]);
                    } else {
                        let at = choose|at: int| 0 <= at < i && all[at] == before[p];
                        assert(all[at] == order[p]);
                    }
                }
                assert forall|q: int|
                    0 <= q < i + 1 && graph@.releasable(
                        (#[trigger] all[q]) as int,
                        target_registry(registry),
                    ) implies order@.contains(all[q]) by {
                    if q == i {
                        assert(order[order.len() - 1] == all[q]);
                    } else {
                        let at = choose|at: int| 0 <= at < before.len() && before[at] == all[q];
                        assert(order[at] == all[q]);
                    }
                }
            }
        }
        i += 1;
    }
    proof {
        use_type_invariant(graph);
        graph@.lemma_order_respects_links(order@);
        if graph@.acyclic() {
            assert forall|i: int, p: int, q: int| #[trigger]
                graph@.link_between(order@, i, p, q) implies q < p by {
                graph@.lemma_acyclic_order(order@, i, p, q);
            }
        }
        assert forall|a: usize|
            graph@.releasable(a as int, target_registry(registry)) implies order@.contains(a) by {
            assert(all@.contains(a));
            let q = choose|q: int| 0 <= q < all.len() && all[q] == a;
            assert(graph@.releasable(all[q] as int, target_registry(registry)));
        }
    }
    order
}

} // verus!
