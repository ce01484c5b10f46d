//! Which packages depend on which, directly or through others.

use vstd::prelude::*;
use crate::graph::{Graph, GraphModel};

verus! {

impl GraphModel {
    /// Link `i` leads from package `a` to package `b`. Dev-only links count
    /// only if `with_dev` is set.
    pub open spec fn link_joins(self, i: int, with_dev: bool, a: int, b: int) -> bool {
        &&& 0 <= i < self.links.len()
        &&& self.links[i].from == a
        &&& self.links[i].to == b
        &&& (with_dev || !self.links[i].dev_only)
    }

    /// Package `a` depends directly on package `b`.
    pub open spec fn edge(self, with_dev: bool, a: int, b: int) -> bool {
        exists|i: int| #[trigger] self.link_joins(i, with_dev, a, b)
    }

    /// `walk` lists two or more packages, each of which depends directly on
    /// the next.
    pub open spec fn is_walk(self, with_dev: bool, walk: Seq<int>) -> bool {
        &&& walk.len() >= 2
        &&& forall|i: int| 0 <= i < walk.len() ==> 0 <= #[trigger] walk[i] < self.size()
        &&& forall|i: int|
            0 <= i < walk.len() - 1 ==> self.edge(with_dev, #[trigger] walk[i], walk[i + 1])
    }

    /// Package `a` depends on package `b`, directly or through other
    /// packages: one or more links lead from `a` to `b`.
    pub open spec fn reaches(self, with_dev: bool, a: int, b: int) -> bool {
        exists|walk: Seq<int>|
            #[trigger] self.is_walk(with_dev, walk) && walk.first() == a && walk.last() == b
    }
}

/// Every package of `walk` but its first and last has an index below `k`.
spec fn inner_below(walk: Seq<int>, k: int) -> bool {
    forall|i: int| 0 < i < walk.len() - 1 ==> #[trigger] walk[i] < k
}

/// A walk leads from `a` to `b` that passes only through packages below `k`.
spec fn reaches_below(g: GraphModel, with_dev: bool, a: int, b: int, k: int) -> bool {
    exists|walk: Seq<int>|
        #[trigger] g.is_walk(with_dev, walk) && inner_below(walk, k) && walk.first() == a
            && walk.last() == b
}

proof fn lemma_reaches_below_size(g: GraphModel, with_dev: bool, a: int, b: int)
    ensures
        g.reaches(with_dev, a, b) <==> reaches_below(g, with_dev, a, b, g.size()),
{
    if g.reaches(with_dev, a, b) {
        let walk = choose|walk: Seq<int>|
            #[trigger] g.is_walk(with_dev, walk) && walk.first() == a && walk.last() == b;
        assert(inner_below(walk, g.size()));
    }
}

proof fn lemma_reaches_below_zero(g: GraphModel, with_dev: bool, a: int, b: int)
    requires
        0 <= a < g.size(),
        0 <= b < g.size(),
    ensures
        g.edge(with_dev, a, b) <==> reaches_below(g, with_dev, a, b, 0),
{
    if g.edge(with_dev, a, b) {
        let walk = seq![a, b];
        assert(g.is_walk(with_dev, walk));
        assert(inner_below(walk, 0));
    }
    if reaches_below(g, with_dev, a, b, 0) {
        let walk = choose|walk: Seq<int>|
            #[trigger] g.is_walk(with_dev, walk) && inner_below(walk, 0) && walk.first() == a
                && walk.last() == b;
        if walk.len() > 2 {
            assert(walk[1] < 0);
        }
        assert(g.edge(with_dev, walk[0], walk[0int + 1]));
    }
}

/// Two walks that meet in a package below `k` make one walk.
proof fn lemma_join(g: GraphModel, with_dev: bool, first: Seq<int>, second: Seq<int>, k: int)
    requires
        g.is_walk(with_dev, first),
        g.is_walk(with_dev, second),
        first.last() == second.first(),
        inner_below(first, k),
        inner_below(second, k),
        first.last() < k,
    ensures
        reaches_below(g, with_dev, first.first(), second.last(), k),
{
    let walk = first + second.skip(1);
    let shift = first.len() - 1;
    assert forall|i: int| 0 <= i < walk.len() implies 0 <= #[trigger] walk[i] < g.size() by {
        if i < first.len() {
            assert(walk[i] == first[i]);
        } else {
            assert(walk[i] == second[i - shift]);
        }
    }
    assert forall|i: int| 0 <= i < walk.len() - 1 implies g.edge(
        with_dev,
        #[trigger] walk[i],
        walk[i + 1],
    ) by {
        if i < first.len() - 1 {
            assert(walk[i] == first[i]);
            assert(walk[i + 1] == first[i + 1]);
        } else {
            assert(walk[i] == second[i - shift]);
            assert(walk[i + 1] == second[i - shift + 1]);
        }
    }
    assert forall|i: int| 0 < i < walk.len() - 1 implies #[trigger] walk[i] < k by {
        if i < first.len() - 1 {
            assert(walk[i] == first[i]);
        } else if i == first.len() - 1 {
            assert(walk[i] == first[i]);
        } else {
            assert(walk[i] == second[i - shift]);
        }
    }
    assert(g.is_walk(with_dev, walk));
    assert(inner_below(walk, k));
    assert(walk.first() == first.first());
    assert(walk.last() == second[walk.len() - 1 - shift]);
}

/// A walk through packages below `k + 1` either avoids `k` or splits at it.
proof fn lemma_split(g: GraphModel, with_dev: bool, walk: Seq<int>, k: int)
    requires
        g.is_walk(with_dev, walk),
        inner_below(walk, k + 1),
    ensures
        reaches_below(g, with_dev, walk.first(), walk.last(), k) || (reaches_below(
            g,
            with_dev,
            walk.first(),
            k,
            k,
        ) && reaches_below(g, with_dev, k, walk.last(), k)),
    decreases walk.len(),
{
    if inner_below(walk, k) {
    } else {
        let f = choose|i: int| 0 < i < walk.len() - 1 && !(#[trigger] walk[i] < k);
        assert(walk[f] == k);
        let head = walk.take(f + 1);
        let tail = walk.skip(f);
        assert forall|i: int| 0 <= i < head.len() - 1 implies g.edge(
            with_dev,
            #[trigger] head[i],
            head[i + 1],
        ) by {
            assert(head[i] == walk[i]);
            assert(head[i + 1] == walk[i + 1]);
        }
        assert forall|i: int| 0 <= i < tail.len() - 1 implies g.edge(
            with_dev,
            #[trigger] tail[i],
            tail[i + 1],
        ) by {
            assert(tail[i] == walk[i + f]);
            assert(tail[i + 1] == walk[i + f + 1]);
        }
        assert forall|i: int| 0 <= i < tail.len() implies 0 <= #[trigger] tail[i] < g.size() by {
            assert(tail[i] == walk[i + f]);
        }
        assert forall|i: int| 0 < i < tail.len() - 1 implies #[trigger] tail[i] < k + 1 by {
            assert(tail[i] == walk[i + f]);
        }
        assert(g.is_walk(with_dev, head));
        assert(g.is_walk(with_dev, tail));
        assert(inner_below(head, k + 1));
        assert(inner_below(tail, k + 1));
        lemma_split(g, with_dev, head, k);
        lemma_split(g, with_dev, tail, k);
        assert(head.first() == walk.first());
        assert(head.last() == k);
        assert(tail.first() == k);
        assert(tail.last() == walk.last());
    }
}

/// What one round of the closure adds: the walks that pass through `k`.
proof fn lemma_step(g: GraphModel, with_dev: bool, a: int, b: int, k: int)
    requires
        0 <= k < g.size(),
    ensures
        reaches_below(g, with_dev, a, b, k + 1) <==> (reaches_below(g, with_dev, a, b, k) || (
        reaches_below(g, with_dev, a, k, k) && reaches_below(g, with_dev, k, b, k))),
{
    if reaches_below(g, with_dev, a, b, k + 1) {
        let walk = choose|walk: Seq<int>|
            #[trigger] g.is_walk(with_dev, walk) && inner_below(walk, k + 1) && walk.first() == a
                && walk.last() == b;
        lemma_split(g, with_dev, walk, k);
    }
    if reaches_below(g, with_dev, a, b, k) {
        let walk = choose|walk: Seq<int>|
            #[trigger] g.is_walk(with_dev, walk) && inner_below(walk, k) && walk.first() == a
                && walk.last() == b;
        assert(inner_below(walk, k + 1));
    }
    if reaches_below(g, with_dev, a, k, k) && reaches_below(g, with_dev, k, b, k) {
        let first = choose|walk: Seq<int>|
            #[trigger] g.is_walk(with_dev, walk) && inner_below(walk, k) && walk.first() == a
                && walk.last() == k;
        let second = choose|walk: Seq<int>|
            #[trigger] g.is_walk(with_dev, walk) && inner_below(walk, k) && walk.first() == k
                && walk.last() == b;
        assert(inner_below(first, k + 1));
        assert(inner_below(second, k + 1));
        lemma_join(g, with_dev, first, second, k + 1);
    }
}

impl GraphModel {
    /// A package that is depended on lies in the graph, and so does the one
    /// that depends on it.
    pub proof fn lemma_reaches_in_range(self, with_dev: bool, a: int, b: int)
        requires
            self.reaches(with_dev, a, b),
        ensures
            0 <= a < self.size(),
            0 <= b < self.size(),
    {
        let walk = choose|walk: Seq<int>|
            #[trigger] self.is_walk(with_dev, walk) && walk.first() == a && walk.last() == b;
        assert(0 <= walk[0] < self.size());
        assert(0 <= walk[walk.len() - 1] < self.size());
    }

    /// A direct dependency is a dependency.
    pub proof fn lemma_edge_reaches(self, with_dev: bool, a: int, b: int)
        requires
            self.edge(with_dev, a, b),
            0 <= a < self.size(),
            0 <= b < self.size(),
        ensures
            self.reaches(with_dev, a, b),
    {
        let walk = seq![a, b];
        assert(self.is_walk(with_dev, walk));
    }

    /// Depending on a package means depending on what it depends on.
    pub proof fn lemma_reaches_transitive(self, with_dev: bool, a: int, b: int, c: int)
        requires
            self.reaches(with_dev, a, b),
            self.reaches(with_dev, b, c),
        ensures
            self.reaches(with_dev, a, c),
    {
        let first = choose|walk: Seq<int>|
            #[trigger] self.is_walk(with_dev, walk) && walk.first() == a && walk.last() == b;
        let second = choose|walk: Seq<int>|
            #[trigger] self.is_walk(with_dev, walk) && walk.first() == b && walk.last() == c;
        assert(inner_below(first, self.size()));
        assert(inner_below(second, self.size()));
        assert(0 <= first[first.len() - 1] < self.size());
        lemma_join(self, with_dev, first, second, self.size());
        lemma_reaches_below_size(self, with_dev, a, c);
    }
}

/// `matrix` has `n` rows of `n` cells.
pub open spec fn is_square(matrix: Seq<Vec<bool>>, n: int) -> bool {
    &&& matrix.len() == n
    &&& forall|a: int| 0 <= a < n ==> (#[trigger] matrix[a]).len() == n
}

/// The cell of `matrix` in row `a` and column `b`.
pub open spec fn cell(matrix: Seq<Vec<bool>>, a: int, b: int) -> bool {
    matrix[a]@[b]
}

/// The cells of `matrix` say which package depends on which.
pub open spec fn is_closure(matrix: Seq<Vec<bool>>, g: GraphModel, with_dev: bool) -> bool {
    &&& is_square(matrix, g.size())
    &&& forall|a: int, b: int|
        0 <= a < g.size() && 0 <= b < g.size() ==> #[trigger] cell(matrix, a, b) == g.reaches(
            with_dev,
            a,
            b,
        )
}

/// The cells of `matrix` say which package reaches which through packages
/// below `k`.
spec fn is_closure_below(matrix: Seq<Vec<bool>>, g: GraphModel, with_dev: bool, k: int) -> bool {
    &&& is_square(matrix, g.size())
    &&& forall|a: int, b: int|
        0 <= a < g.size() && 0 <= b < g.size() ==> #[trigger] cell(matrix, a, b) == reaches_below(
            g,
            with_dev,
            a,
            b,
            k,
        )
}

/// A matrix of `n` rows of `n` cells, all false.
fn blank_matrix(n: usize) -> (matrix: Vec<Vec<bool>>)
    ensures
        is_square(matrix@, n as int),
        forall|a: int, b: int| 0 <= a < n && 0 <= b < n ==> !#[trigger] cell(matrix@, a, b),
{
    let mut matrix: Vec<Vec<bool>> = Vec::new();
    let mut a: usize = 0;
    while a < n
        invariant
            a <= n,
            is_square_prefix(matrix@, a as int, n as int),
            forall|i: int, b: int| 0 <= i < a && 0 <= b < n ==> !#[trigger] cell(matrix@, i, b),
        decreases n - a,
    {
        let mut row: Vec<bool> = Vec::new();
        let mut b: usize = 0;
        while b < n
            invariant
                b <= n,
                row.len() == b,
                forall|j: int| 0 <= j < b ==> !row@[j],
            decreases n - b,
        {
            row.push(false);
            b += 1;
        }
        let ghost before = matrix@;
        matrix.push(row);
        proof {
            assert forall|i: int, b: int| 0 <= i < a + 1 && 0 <= b < n implies !#[trigger] cell(
                matrix@,
                i,
                b,
            ) by {
                if i < a {
                    assert(cell(before, i, b) == cell(matrix@, i, b));
                }
            }
        }
        a += 1;
    }
    matrix
}

/// `matrix` has `rows` rows of `n` cells.
spec fn is_square_prefix(matrix: Seq<Vec<bool>>, rows: int, n: int) -> bool {
    &&& matrix.len() == rows
    &&& forall|a: int| 0 <= a < rows ==> (#[trigger] matrix[a]).len() == n
}

/// The matrix of direct dependencies.
fn direct_matrix(graph: &Graph, with_dev: bool) -> (matrix: Vec<Vec<bool>>)
    ensures
        is_closure_below(matrix@, graph@, with_dev, 0),
{
    let n = graph.package_count();
    let count = graph.link_count();
    let mut matrix = blank_matrix(n);
    let mut i: usize = 0;
    while i < count
        invariant
            i <= count,
            count == graph@.links.len(),
            n == graph@.size(),
            is_square(matrix@, n as int),
            forall|a: int, b: int|
                0 <= a < n && 0 <= b < n ==> (#[trigger] cell(matrix@, a, b) <==> exists|j: int|
                    0 <= j < i && #[trigger] graph@.link_joins(j, with_dev, a, b)),
        decreases count - i,
    {
        let link = graph.link(i);
        let ghost before = matrix@;
        if with_dev || !link.dev_only {
            let from = link.from;
            let to = link.to;
            matrix[from][to] = true;
            proof {
                assert(graph@.link_joins(i as int, with_dev, from as int, to as int));
                assert forall|a: int, b: int| 0 <= a < n && 0 <= b < n implies (#[trigger] cell(
                    matrix@,
                    a,
                    b,
                ) <==> exists|j: int|
                    0 <= j < i + 1 && #[trigger] graph@.link_joins(j, with_dev, a, b)) by {
                    if a == from && b == to {
                    } else {
                        assert(cell(matrix@, a, b) == cell(before, a, b));
                        if exists|j: int|
                            0 <= j < i + 1 && #[trigger] graph@.link_joins(j, with_dev, a, b) {
                            let j = choose|j: int|
                                0 <= j < i + 1 && #[trigger] graph@.link_joins(j, with_dev, a, b);
                            assert(j != i);
                        }
                    }
                }
            }
        } else {
            proof {
                assert forall|a: int, b: int| 0 <= a < n && 0 <= b < n implies (#[trigger] cell(
                    matrix@,
                    a,
                    b,
                ) <==> exists|j: int|
                    0 <= j < i + 1 && #[trigger] graph@.link_joins(j, with_dev, a, b)) by {
                    if exists|j: int|
                        0 <= j < i + 1 && #[trigger] graph@.link_joins(j, with_dev, a, b) {
                        let j = choose|j: int|
                            0 <= j < i + 1 && #[trigger] graph@.link_joins(j, with_dev, a, b);
                        assert(j != i);
                    }
                }
            }
        }
        i += 1;
    }
    proof {
        assert forall|a: int, b: int| 0 <= a < n && 0 <= b < n implies #[trigger] cell(
            matrix@,
            a,
            b,
        ) == reaches_below(graph@, with_dev, a, b, 0) by {
            lemma_reaches_below_zero(graph@, with_dev, a, b);
            if graph@.edge(with_dev, a, b) {
                let j = choose|j: int| #[trigger] graph@.link_joins(j, with_dev, a, b);
                assert(0 <= j < count);
            }
        }
    }
    matrix
}

/// A copy of `row`.
fn copy_row(row: &Vec<bool>) -> (copy: Vec<bool>)
    ensures
        copy@ == row@,
{
    let mut copy: Vec<bool> = Vec::new();
    let mut i: usize = 0;
    while i < row.len()
        invariant
            i <= row.len(),
            copy@ == row@.take(i as int),
        decreases row.len() - i,
    {
        copy.push(row[i]);
        assert(row@.take(i + 1) == row@.take(i as int).push(row@[i as int]));
        i += 1;
    }
    assert(row@.take(row.len() as int) == row@);
    copy
}

/// Computes which package depends on which: the cell in row `a` and column
/// `b` of the matrix that is returned tells whether package `a` depends on
/// package `b`, directly or through other packages. Dev-only links count
/// only if `with_dev` is set.
pub fn closure(graph: &Graph, with_dev: bool) -> (matrix: Vec<Vec<bool>>)
    ensures
        is_closure(matrix@, graph@, with_dev),
{
    let n = graph.package_count();
    let mut matrix = direct_matrix(graph, with_dev);
    let mut k: usize = 0;
    while k < n
        invariant
            k <= n,
            n == graph@.size(),
            is_closure_below(matrix@, graph@, with_dev, k as int),
        decreases n - k,
    {
        let pivot = copy_row(&matrix[k]);
        assert forall|b: int| 0 <= b < n implies pivot@[b] == reaches_below(
            graph@,
            with_dev,
            k as int,
            b,
            k as int,
        ) by {
            assert(pivot@[b] == cell(matrix@, k as int, b));
        }
        let mut a: usize = 0;
        while a < n
            invariant
                a <= n,
                k < n,
                n == graph@.size(),
                is_square(matrix@, n as int),
                pivot.len() == n,
                forall|b: int|
                    0 <= b < n ==> pivot@[b] == reaches_below(graph@, with_dev, k as int, b, k as int),
                forall|r: int, b: int|
                    0 <= r < a && 0 <= b < n ==> #[trigger] cell(matrix@, r, b) == reaches_below(
                        graph@,
                        with_dev,
                        r,
                        b,
                        k + 1,
                    ),
                forall|r: int, b: int|
                    a <= r < n && 0 <= b < n ==> #[trigger] cell(matrix@, r, b) == reaches_below(
                        graph@,
                        with_dev,
                        r,
                        b,
                        k as int,
                    ),
            decreases n - a,
        {
            let through = matrix[a][k];
            assert(through == cell(matrix@, a as int, k as int));
            if through {
                let mut b: usize = 0;
                while b < n
                    invariant
                        b <= n,
                        a < n,
                        k < n,
                        n == graph@.size(),
                        is_square(matrix@, n as int),
                        pivot.len() == n,
                        reaches_below(graph@, with_dev, a as int, k as int, k as int),
                        forall|c: int|
                            0 <= c < n ==> pivot@[c] == reaches_below(
                                graph@,
                                with_dev,
                                k as int,
                                c,
                                k as int,
                            ),
                        forall|r: int, c: int|
                            0 <= r < a && 0 <= c < n ==> #[trigger] cell(matrix@, r, c)
                                == reaches_below(graph@, with_dev, r, c, k + 1),
                        forall|r: int, c: int|
                            a < r < n && 0 <= c < n ==> #[trigger] cell(matrix@, r, c)
                                == reaches_below(graph@, with_dev, r, c, k as int),
                        forall|c: int|
                            0 <= c < b ==> #[trigger] cell(matrix@, a as int, c) == reaches_below(
                                graph@,
                                with_dev,
                                a as int,
                                c,
                                k + 1,
                            ),
                        forall|c: int|
                            b <= c < n ==> #[trigger] cell(matrix@, a as int, c) == reaches_below(
                                graph@,
                                with_dev,
                                a as int,
                                c,
                                k as int,
                            ),
                    decreases n - b,
                {
                    let ghost before = matrix@;
                    assert(cell(before, a as int, b as int) == reaches_below(
                        graph@,
                        with_dev,
                        a as int,
                        b as int,
                        k as int,
                    ));
                    if pivot[b] {
                        matrix[a][b] = true;
                    }
                    proof {
                        lemma_step(graph@, with_dev, a as int, b as int, k as int);
                        assert forall|r: int, c: int| 0 <= r < n && 0 <= c < n && !(r == a && c
                            == b) implies #[trigger] cell(matrix@, r, c) == cell(before, r, c) by {}
                        assert forall|r: int| 0 <= r < n implies (#[trigger] matrix@[r]).len()
                            == n by {
                            assert(before[r].len() == n);
                        }
                    }
                    b += 1;
                }
            } else {
                proof {
                    assert forall|c: int| 0 <= c < n implies #[trigger] cell(matrix@, a as int, c)
                        == reaches_below(graph@, with_dev, a as int, c, k + 1) by {
                        lemma_step(graph@, with_dev, a as int, c, k as int);
                    }
                }
            }
            a += 1;
        }
        k += 1;
    }
    proof {
        assert forall|a: int, b: int| 0 <= a < n && 0 <= b < n implies #[trigger] cell(
            matrix@,
            a,
            b,
        ) == graph@.reaches(with_dev, a, b) by {
            lemma_reaches_below_size(graph@, with_dev, a, b);
        }
    }
    matrix
}

} // verus!
