//! Dependency ordering over a flat list of named nodes: Kahn's algorithm with
//! the lexically smallest ready node taken first, and cycle refusal.
use vstd::prelude::*;

verus! {

/// Strict lexicographic order on texts, by character code.
pub open spec fn lex_lt(a: Seq<char>, b: Seq<char>) -> bool
    decreases a.len(),
{
    if b.len() == 0 {
        false
    } else if a.len() == 0 {
        true
    } else if a[0] != b[0] {
        (a[0] as u32) < (b[0] as u32)
    } else {
        lex_lt(a.drop_first(), b.drop_first())
    }
}

pub proof fn lemma_lex_lt_transitive(a: Seq<char>, b: Seq<char>, c: Seq<char>)
    requires
        lex_lt(a, b),
        lex_lt(b, c),
    ensures
        lex_lt(a, c),
    decreases a.len(),
{
    if a.len() > 0 && b.len() > 0 && c.len() > 0 && a[0] == b[0] && b[0] == c[0] {
        lemma_lex_lt_transitive(a.drop_first(), b.drop_first(), c.drop_first());
    }
}

pub proof fn lemma_lex_lt_irreflexive(a: Seq<char>)
    ensures
        !lex_lt(a, a),
    decreases a.len(),
{
    if a.len() > 0 {
        lemma_lex_lt_irreflexive(a.drop_first());
    }
}

/// Whether `a` sorts strictly before `b`.
pub fn lex_less(a: &Vec<char>, b: &Vec<char>) -> (r: bool)
    ensures
        r == lex_lt(a@, b@),
{
    let mut i: usize = 0;
    assert(a@.subrange(0, a@.len() as int) =~= a@);
    assert(b@.subrange(0, b@.len() as int) =~= b@);
    while i < a.len() && i < b.len() && a[i] == b[i]
        invariant
            i <= a@.len(),
            i <= b@.len(),
            lex_lt(a@, b@) == lex_lt(a@.subrange(i as int, a@.len() as int), b@.subrange(i as int, b@.len() as int)),
        decreases a@.len() - i,
    {
        let ghost sa = a@.subrange(i as int, a@.len() as int);
        let ghost sb = b@.subrange(i as int, b@.len() as int);
        assert(sa.drop_first() =~= a@.subrange(i + 1, a@.len() as int));
        assert(sb.drop_first() =~= b@.subrange(i + 1, b@.len() as int));
        i = i + 1;
    }
    let ghost sa = a@.subrange(i as int, a@.len() as int);
    let ghost sb = b@.subrange(i as int, b@.len() as int);
    if i == b.len() {
        assert(sb.len() == 0);
        false
    } else if i == a.len() {
        assert(sa.len() == 0);
        true
    } else {
        assert(sa[0] == a@[i as int] && sb[0] == b@[i as int]);
        (a[i] as u32) < (b[i] as u32)
    }
}

/// The dependency lists of an adjacency vector.
pub open spec fn adj(deps: Seq<Vec<usize>>) -> Seq<Seq<usize>> {
    deps.map_values(|d: Vec<usize>| d@)
}

/// The texts of a vector of character vectors.
pub open spec fn strs(v: Seq<Vec<char>>) -> Seq<Seq<char>> {
    v.map_values(|s: Vec<char>| s@)
}

/// The graph is well formed: one dependency list per node, each naming a node.
pub open spec fn graph_wf(deps: Seq<Seq<usize>>) -> bool {
    forall|i: int, k: int| 0 <= i < deps.len() && 0 <= k < deps[i].len() ==> #[trigger] deps[i][k] < deps.len()
}

/// Node `x` may come next once the nodes of `prefix` are placed: every node it
/// depends on, itself apart, is among them.
pub open spec fn deps_placed(deps: Seq<Seq<usize>>, prefix: Seq<usize>, x: int) -> bool {
    forall|k: int| 0 <= k < deps[x].len() ==> (#[trigger] deps[x][k] == x || prefix.contains(deps[x][k]))
}

/// `order` lists every node once, each after all the nodes it depends on.
pub open spec fn is_dependency_order(deps: Seq<Seq<usize>>, order: Seq<usize>) -> bool {
    &&& forall|p: int| 0 <= p < order.len() ==> #[trigger] order[p] < deps.len()
    &&& order.no_duplicates()
    &&& forall|i: usize| i < deps.len() ==> #[trigger] order.contains(i)
    &&& forall|p: int| 0 <= p < order.len() ==> deps_placed(deps, order.subrange(0, p), #[trigger] order[p] as int)
}

/// Some order of the nodes respects every dependency: the graph has no cycle.
pub open spec fn is_acyclic(deps: Seq<Seq<usize>>) -> bool {
    exists|order: Seq<usize>| is_dependency_order(deps, order)
}

/// Each node of `order` is, among the nodes that could come at its place, one
/// with the smallest name.
pub open spec fn takes_smallest(names: Seq<Seq<char>>, deps: Seq<Seq<usize>>, order: Seq<usize>) -> bool {
    forall|p: int, x: int|
        0 <= p < order.len() && 0 <= x < deps.len() && !order.subrange(0, p).contains(x as usize)
            && deps_placed(deps, order.subrange(0, p), x) ==> !lex_lt(
            #[trigger] names[x],
            #[trigger] names[order[p] as int],
        )
}

pub open spec fn count_true(s: Seq<bool>) -> nat
    decreases s.len(),
{
    if s.len() == 0 {
        0
    } else {
        count_true(s.drop_last()) + if s.last() {
            1nat
        } else {
            0nat
        }
    }
}

proof fn lemma_count_true_bound(s: Seq<bool>)
    ensures
        count_true(s) <= s.len(),
    decreases s.len(),
{
    if s.len() > 0 {
        lemma_count_true_bound(s.drop_last());
    }
}

proof fn lemma_count_true_set(s: Seq<bool>, i: int)
    requires
        0 <= i < s.len(),
        !s[i],
    ensures
        count_true(s.update(i, true)) == count_true(s) + 1,
    decreases s.len(),
{
    let t = s.update(i, true);
    if i < s.len() - 1 {
        lemma_count_true_set(s.drop_last(), i);
        assert(t.drop_last() =~= s.drop_last().update(i, true));
    } else {
        assert(t.drop_last() =~= s.drop_last());
    }
}

/// Where no unplaced node can come next, no order of the whole graph exists.
proof fn lemma_stuck_means_cycle(deps: Seq<Seq<usize>>, placed: Seq<bool>, order: Seq<usize>, u: usize)
    requires
        placed.len() == deps.len(),
        u < deps.len(),
        !placed[u as int],
        forall|i: int| 0 <= i < deps.len() ==> (placed[i] <==> order.contains(i as usize)),
        forall|x: int| 0 <= x < deps.len() && !placed[x] ==> !deps_placed(deps, order, x),
        graph_wf(deps),
    ensures
        !is_acyclic(deps),
{
    if is_acyclic(deps) {
        let o = choose|o: Seq<usize>| is_dependency_order(deps, o);
        assert(o.contains(u));
        assert(o.subrange(0, o.len() as int) =~= o);
        let q = first_unplaced(deps, placed, o, 0, u);
        let x = o[q] as int;
        assert forall|k: int| 0 <= k < deps[x].len() implies (#[trigger] deps[x][k] == x || order.contains(deps[x][k])) by {
            assert(deps_placed(deps, o.subrange(0, q), x));
            let d = deps[x][k];
            if d != x {
                assert(o.subrange(0, q).contains(d));
                let j = choose|j: int| 0 <= j < q && o.subrange(0, q)[j] == d;
                assert(o[j] == d);
                assert(placed[d as int]);
            }
        }
        assert(deps_placed(deps, order, x));
    }
}

/// The first position at or after `p` of `o` that holds an unplaced node.
proof fn first_unplaced(deps: Seq<Seq<usize>>, placed: Seq<bool>, o: Seq<usize>, p: int, u: usize) -> (q: int)
    requires
        placed.len() == deps.len(),
        is_dependency_order(deps, o),
        0 <= p <= o.len(),
        u < deps.len(),
        !placed[u as int],
        o.subrange(p, o.len() as int).contains(u),
        forall|j: int| 0 <= j < p ==> placed[#[trigger] o[j] as int],
    ensures
        p <= q < o.len(),
        !placed[o[q] as int],
        forall|j: int| 0 <= j < q ==> placed[#[trigger] o[j] as int],
    decreases o.len() - p,
{
    let j0 = choose|j: int| 0 <= j < o.len() - p && o.subrange(p, o.len() as int)[j] == u;
    assert(o[p + j0] == u);
    if !placed[o[p] as int] {
        p
    } else {
        assert(j0 != 0);
        assert(o.subrange(p + 1, o.len() as int)[j0 - 1] == u);
        first_unplaced(deps, placed, o, p + 1, u)
    }
}

/// Whether every node that `x` depends on, itself apart, is placed.
fn ready(deps: &Vec<Vec<usize>>, placed: &Vec<bool>, x: usize, Ghost(order): Ghost<Seq<usize>>) -> (r: bool)
    requires
        x < adj(deps@).len(),
        placed@.len() == adj(deps@).len(),
        graph_wf(adj(deps@)),
        forall|i: int| 0 <= i < adj(deps@).len() ==> (placed@[i] <==> order.contains(i as usize)),
    ensures
        r == deps_placed(adj(deps@), order, x as int),
{
    let ds = &deps[x];
    let mut k: usize = 0;
    while k < ds.len()
        invariant
            ds@ == adj(deps@)[x as int],
            k <= ds@.len(),
            x < adj(deps@).len(),
            placed@.len() == adj(deps@).len(),
            graph_wf(adj(deps@)),
            forall|i: int| 0 <= i < adj(deps@).len() ==> (placed@[i] <==> order.contains(i as usize)),
            forall|m: int| 0 <= m < k ==> (#[trigger] ds@[m] == x || order.contains(ds@[m])),
        decreases ds@.len() - k,
    {
        let d = ds[k];
        assert(d < adj(deps@).len());
        if d != x && !placed[d] {
            return false;
        }
        k = k + 1;
    }
    true
}

/// The nodes in dependency order, the lexically smallest ready node first at
/// every step; `None` exactly when the dependencies form a cycle.
pub fn dependency_order(names: &Vec<Vec<char>>, deps: &Vec<Vec<usize>>) -> (r: Result<Vec<usize>, Vec<usize>>)
    requires
        strs(names@).len() == adj(deps@).len(),
        graph_wf(adj(deps@)),
    ensures
        r is Ok <==> is_acyclic(adj(deps@)),
        r matches Ok(order) ==> is_dependency_order(adj(deps@), order@) && takes_smallest(strs(names@), adj(deps@), order@),
        r matches Err(rest) ==> is_blocked_set(adj(deps@), rest@),
{
    let n = deps.len();
    let mut placed: Vec<bool> = Vec::new();
    let mut i: usize = 0;
    while i < n
        invariant
            i <= n,
            n == adj(deps@).len(),
            placed@.len() == i,
            forall|j: int| 0 <= j < i ==> !placed@[j],
        decreases n - i,
    {
        placed.push(false);
        i = i + 1;
    }
    proof {
        lemma_count_zero(placed@, placed@.len() as int);
        assert(placed@.subrange(0, placed@.len() as int) =~= placed@);
    }
    let mut order: Vec<usize> = Vec::new();
    loop
        invariant
            n == adj(deps@).len(),
            strs(names@).len() == n,
            graph_wf(adj(deps@)),
            placed@.len() == n,
            count_true(placed@) == order@.len(),
            forall|j: int| 0 <= j < n ==> (placed@[j] <==> order@.contains(j as usize)),
            forall|p: int| 0 <= p < order@.len() ==> #[trigger] order@[p] < n,
            order@.no_duplicates(),
            forall|p: int| 0 <= p < order@.len() ==> deps_placed(adj(deps@), order@.subrange(0, p), #[trigger] order@[p] as int),
            takes_smallest(strs(names@), adj(deps@), order@),
        decreases n - count_true(placed@),
    {
        proof {
            lemma_count_true_bound(placed@);
        }
        let mut best: Option<usize> = None;
        let mut x: usize = 0;
        while x < n
            invariant
                n == adj(deps@).len(),
                strs(names@).len() == n,
                graph_wf(adj(deps@)),
                placed@.len() == n,
                x <= n,
                forall|j: int| 0 <= j < n ==> (placed@[j] <==> order@.contains(j as usize)),
                best matches Some(b) ==> b < n && !placed@[b as int] && deps_placed(adj(deps@), order@, b as int),
                forall|y: int| 0 <= y < x && !placed@[y] && deps_placed(adj(deps@), order@, y) ==> (best matches Some(b) && !lex_lt(strs(names@)[y], strs(names@)[b as int])),
            decreases n - x,
        {
            if !placed[x] && ready(deps, &placed, x, Ghost(order@)) {
                match best {
                    None => {
                        proof {
                            lemma_lex_lt_irreflexive(strs(names@)[x as int]);
                        }
                        best = Some(x);
                    },
                    Some(b) => {
                        if lex_less(&names[x], &names[b]) {
                            proof {
                                assert forall|y: int| 0 <= y < x && !placed@[y] && deps_placed(adj(deps@), order@, y) implies !lex_lt(strs(names@)[y], strs(names@)[x as int]) by {
                                    if lex_lt(strs(names@)[y], strs(names@)[x as int]) {
                                        lemma_lex_lt_transitive(strs(names@)[y], strs(names@)[x as int], strs(names@)[b as int]);
                                    }
                                }
                                lemma_lex_lt_irreflexive(strs(names@)[x as int]);
                            }
                            best = Some(x);
                        }
                    },
                }
            }
            x = x + 1;
        }
        match best {
            None => {
                match find_unplaced(&placed) {
                    Some(j) => {
                        proof {
                            lemma_stuck_means_cycle(adj(deps@), placed@, order@, j);
                        }
                        let rest = unplaced_nodes(&placed);
                        proof {
                            assert(rest@.contains(j));
                            assert forall|p: int| 0 <= p < rest@.len() implies #[trigger] depends_within(adj(deps@), rest@, rest@[p] as int) by {
                                let x = rest@[p] as int;
                                assert(!placed@[x]);
                                assert(!deps_placed(adj(deps@), order@, x));
                                let k = choose|k: int| 0 <= k < adj(deps@)[x].len() && !(#[trigger] adj(deps@)[x][k] == x || order@.contains(adj(deps@)[x][k]));
                                let d = adj(deps@)[x][k];
                                assert(!placed@[d as int]);
                                assert(rest@.contains(d));
                            }
                        }
                        return Err(rest);
                    },
                    None => {},
                }
                proof {
                    assert forall|i: usize| i < adj(deps@).len() implies #[trigger] order@.contains(i) by {
                        assert(placed@[i as int]);
                    }
                    assert(is_dependency_order(adj(deps@), order@));
                }
                return Ok(order);
            },
            Some(b) => {
                let ghost old_order = order@;
                let ghost old_placed = placed@;
                proof {
                    lemma_count_true_set(placed@, b as int);
                    assert(!old_order.contains(b));
                }
                placed.set(b, true);
                order.push(b);
                proof {
                    lemma_count_true_bound(placed@);
                    assert(order@.subrange(0, old_order.len() as int) =~= old_order);
                    assert forall|p: int| 0 <= p < order@.len() implies deps_placed(adj(deps@), order@.subrange(0, p), #[trigger] order@[p] as int) by {
                        if p < old_order.len() {
                            assert(order@.subrange(0, p) =~= old_order.subrange(0, p));
                        }
                    }
                    assert forall|j: int| 0 <= j < n implies (placed@[j] <==> order@.contains(j as usize)) by {
                        if j == b {
                            assert(order@[old_order.len() as int] == b);
                        } else {
                            if order@.contains(j as usize) {
                                let q = choose|q: int| 0 <= q < order@.len() && order@[q] == j as usize;
                                assert(q < old_order.len());
                                assert(old_order[q] == j as usize);
                            }
                            if old_order.contains(j as usize) {
                                let q = choose|q: int| 0 <= q < old_order.len() && old_order[q] == j as usize;
                                assert(order@[q] == j as usize);
                            }
                        }
                    }
                    assert forall|p: int, y: int|
                        0 <= p < order@.len() && 0 <= y < adj(deps@).len() && !order@.subrange(0, p).contains(y as usize)
                            && deps_placed(adj(deps@), order@.subrange(0, p), y) implies !lex_lt(
                            #[trigger] strs(names@)[y],
                            #[trigger] strs(names@)[order@[p] as int],
                        ) by {
                        if p < old_order.len() {
                            assert(order@.subrange(0, p) =~= old_order.subrange(0, p));
                        } else {
                            assert(order@.subrange(0, p) =~= old_order);
                            assert(!old_placed[y]);
                        }
                    }
                }
            },
        }
    }
}

/// Node `x` depends on some other node of `rest`.
pub open spec fn depends_within(deps: Seq<Seq<usize>>, rest: Seq<usize>, x: int) -> bool {
    exists|k: int| 0 <= k < deps[x].len() && #[trigger] deps[x][k] != x && rest.contains(deps[x][k])
}

/// `rest` is a non-empty list of nodes, in increasing order, each depending on
/// another of them: none of them can ever be created first.
pub open spec fn is_blocked_set(deps: Seq<Seq<usize>>, rest: Seq<usize>) -> bool {
    &&& rest.len() > 0
    &&& forall|p: int| 0 <= p < rest.len() ==> #[trigger] rest[p] < deps.len()
    &&& forall|p: int, q: int| 0 <= p < q < rest.len() ==> #[trigger] rest[p] < #[trigger] rest[q]
    &&& forall|p: int| 0 <= p < rest.len() ==> #[trigger] depends_within(deps, rest, rest[p] as int)
}

/// The positions of `placed` that hold `false`, in increasing order.
fn unplaced_nodes(placed: &Vec<bool>) -> (r: Vec<usize>)
    ensures
        forall|p: int| 0 <= p < r@.len() ==> #[trigger] r@[p] < placed@.len() && !placed@[r@[p] as int],
        forall|p: int, q: int| 0 <= p < q < r@.len() ==> #[trigger] r@[p] < #[trigger] r@[q],
        forall|j: int| 0 <= j < placed@.len() && !placed@[j] ==> r@.contains(j as usize),
{
    let mut r: Vec<usize> = Vec::new();
    let mut j: usize = 0;
    while j < placed.len()
        invariant
            j <= placed@.len(),
            forall|p: int| 0 <= p < r@.len() ==> #[trigger] r@[p] < j && !placed@[r@[p] as int],
            forall|p: int, q: int| 0 <= p < q < r@.len() ==> #[trigger] r@[p] < #[trigger] r@[q],
            forall|m: int| 0 <= m < j && !placed@[m] ==> r@.contains(m as usize),
        decreases placed@.len() - j,
    {
        if !placed[j] {
            let ghost old_r = r@;
            r.push(j);
            proof {
                assert forall|m: int| 0 <= m < j + 1 && !placed@[m] implies r@.contains(m as usize) by {
                    if m < j {
                        let q = choose|q: int| 0 <= q < old_r.len() && old_r[q] == m as usize;
                        assert(r@[q] == m as usize);
                    } else {
                        assert(r@[old_r.len() as int] == j);
                    }
                }
            }
        }
        j = j + 1;
    }
    r
}

fn find_unplaced(placed: &Vec<bool>) -> (r: Option<usize>)
    ensures
        r matches Some(j) ==> j < placed@.len() && !placed@[j as int],
        r is None ==> forall|j: int| 0 <= j < placed@.len() ==> placed@[j],
{
    let mut j: usize = 0;
    while j < placed.len()
        invariant
            j <= placed@.len(),
            forall|m: int| 0 <= m < j ==> placed@[m],
        decreases placed@.len() - j,
    {
        if !placed[j] {
            return Some(j);
        }
        j = j + 1;
    }
    None
}

proof fn lemma_count_zero(s: Seq<bool>, m: int)
    requires
        0 <= m <= s.len(),
        forall|j: int| 0 <= j < s.len() ==> !s[j],
    ensures
        count_true(s.subrange(0, m)) == 0,
    decreases m,
{
    if m > 0 {
        lemma_count_zero(s, m - 1);
        assert(s.subrange(0, m).drop_last() =~= s.subrange(0, m - 1));
    }
}

/// The lists of texts of a vector of text vectors.
pub open spec fn strss(v: Seq<Vec<Vec<char>>>) -> Seq<Seq<Seq<char>>> {
    v.map_values(|w: Vec<Vec<char>>| strs(w@))
}

/// Position of the first name equal to `n` at or after `i`.
pub open spec fn first_index_from(names: Seq<Seq<char>>, n: Seq<char>, i: int) -> Option<int>
    decreases names.len() - i,
{
    if i < 0 || i >= names.len() {
        None
    } else if names[i] == n {
        Some(i)
    } else {
        first_index_from(names, n, i + 1)
    }
}

/// The nodes that node `i` depends on, given the names it refers to: each name
/// that some node bears resolves to the first such node; names of no node, and
/// references of a node to itself, are dropped.
pub open spec fn dep_indices(names: Seq<Seq<char>>, i: int, ds: Seq<Seq<char>>) -> Seq<usize>
    decreases ds.len(),
{
    if ds.len() == 0 {
        Seq::empty()
    } else {
        let rest = dep_indices(names, i, ds.drop_last());
        match first_index_from(names, ds.last(), 0) {
            Some(j) => if j != i {
                rest.push(j as usize)
            } else {
                rest
            },
            None => rest,
        }
    }
}

/// The dependency graph of named nodes whose dependencies are given by name.
pub open spec fn name_graph(names: Seq<Seq<char>>, dep_names: Seq<Seq<Seq<char>>>) -> Seq<Seq<usize>> {
    Seq::new(names.len(), |i: int| dep_indices(names, i, dep_names[i]))
}

proof fn lemma_first_index_range(names: Seq<Seq<char>>, n: Seq<char>, i: int)
    requires
        0 <= i,
    ensures
        first_index_from(names, n, i) matches Some(j) ==> i <= j < names.len() && names[j] == n,
    decreases names.len() - i,
{
    if i < names.len() && names[i] != n {
        lemma_first_index_range(names, n, i + 1);
    }
}

proof fn lemma_dep_indices_range(names: Seq<Seq<char>>, i: int, ds: Seq<Seq<char>>)
    ensures
        forall|k: int| 0 <= k < dep_indices(names, i, ds).len() ==> #[trigger] dep_indices(names, i, ds)[k] < names.len(),
    decreases ds.len(),
{
    if ds.len() > 0 {
        lemma_dep_indices_range(names, i, ds.drop_last());
        lemma_first_index_range(names, ds.last(), 0);
        let rest = dep_indices(names, i, ds.drop_last());
        let all = dep_indices(names, i, ds);
        assert forall|k: int| 0 <= k < all.len() implies #[trigger] all[k] < names.len() by {
            if k < rest.len() {
                assert(all[k] == rest[k]);
            }
        }
    }
}

/// Position of the first of `names` equal to `n`.
pub fn find_name(names: &Vec<Vec<char>>, n: &Vec<char>) -> (r: Option<usize>)
    ensures
        r matches Some(j) ==> first_index_from(strs(names@), n@, 0) == Some(j as int),
        r is None ==> first_index_from(strs(names@), n@, 0) is None,
{
    let mut i: usize = 0;
    while i < names.len()
        invariant
            i <= names@.len(),
            first_index_from(strs(names@), n@, 0) == first_index_from(strs(names@), n@, i as int),
        decreases names@.len() - i,
    {
        if crate::text::eq_chars(&names[i], n) {
            return Some(i);
        }
        i = i + 1;
    }
    None
}

/// The nodes in dependency order, where each node names the nodes it depends
/// on; `None` exactly when those references form a cycle.
pub fn order_by_names(names: &Vec<Vec<char>>, dep_names: &Vec<Vec<Vec<char>>>) -> (r: Result<Vec<usize>, Vec<usize>>)
    requires
        names@.len() == dep_names@.len(),
    ensures
        r is Ok <==> is_acyclic(name_graph(strs(names@), strss(dep_names@))),
        r matches Err(rest) ==> is_blocked_set(name_graph(strs(names@), strss(dep_names@)), rest@),
        r matches Ok(order) ==> is_dependency_order(name_graph(strs(names@), strss(dep_names@)), order@)
            && takes_smallest(strs(names@), name_graph(strs(names@), strss(dep_names@)), order@),
{
    let ghost g = name_graph(strs(names@), strss(dep_names@));
    let mut deps: Vec<Vec<usize>> = Vec::new();
    let mut i: usize = 0;
    while i < names.len()
        invariant
            i <= names@.len(),
            names@.len() == dep_names@.len(),
            g == name_graph(strs(names@), strss(dep_names@)),
            deps@.len() == i,
            forall|m: int| 0 <= m < i ==> #[trigger] deps@[m]@ == g[m],
        decreases names@.len() - i,
    {
        let ds = &dep_names[i];
        let mut d: Vec<usize> = Vec::new();
        let mut k: usize = 0;
        while k < ds.len()
            invariant
                i < names@.len(),
                names@.len() == dep_names@.len(),
                ds@ == dep_names@[i as int]@,
                k <= ds@.len(),
                d@ == dep_indices(strs(names@), i as int, strs(ds@).subrange(0, k as int)),
            decreases ds@.len() - k,
        {
            let ghost pre = strs(ds@).subrange(0, k as int);
            assert(strs(ds@).subrange(0, k + 1).drop_last() =~= pre);
            match find_name(names, &ds[k]) {
                Some(j) => {
                    if j != i {
                        d.push(j);
                    }
                },
                None => {},
            }
            k = k + 1;
        }
        assert(strs(ds@).subrange(0, ds@.len() as int) =~= strs(ds@));
        deps.push(d);
        i = i + 1;
    }
    assert(adj(deps@) =~= g);
    proof {
        assert forall|a: int, k: int| 0 <= a < g.len() && 0 <= k < g[a].len() implies #[trigger] g[a][k] < g.len() by {
            lemma_dep_indices_range(strs(names@), a, strss(dep_names@)[a]);
        }
    }
    dependency_order(names, &deps)
}

proof fn lemma_lex_lt_total(a: Seq<char>, b: Seq<char>)
    requires
        !lex_lt(a, b),
        !lex_lt(b, a),
    ensures
        a == b,
    decreases a.len(),
{
    if a.len() > 0 && b.len() > 0 {
        if a[0] == b[0] {
            lemma_lex_lt_total(a.drop_first(), b.drop_first());
            assert(a =~= seq![a[0]] + a.drop_first());
            assert(b =~= seq![b[0]] + b.drop_first());
        } else {
            vstd::utf8::char_u32_cast(a[0], a[0] as u32);
            vstd::utf8::char_u32_cast(b[0], b[0] as u32);
        }
    }
}

/// No two nodes bear the same name.
pub open spec fn names_distinct(names: Seq<Seq<char>>) -> bool {
    forall|a: int, b: int| 0 <= a < b < names.len() ==> #[trigger] names[a] != #[trigger] names[b]
}

/// With distinct names, the dependency order that takes the smallest ready
/// name first is unique: the creation order is a function of the tables and
/// their references, whatever order they were listed in.
pub proof fn lemma_smallest_first_order_is_unique(names: Seq<Seq<char>>, deps: Seq<Seq<usize>>, o1: Seq<usize>, o2: Seq<usize>)
    requires
        names.len() == deps.len(),
        names_distinct(names),
        is_dependency_order(deps, o1),
        is_dependency_order(deps, o2),
        takes_smallest(names, deps, o1),
        takes_smallest(names, deps, o2),
    ensures
        o1 == o2,
{
    assert(o1.subrange(0, 0) =~= o2.subrange(0, 0));
    lemma_common_prefix(names, deps, o1, o2, 0);
}

proof fn lemma_common_prefix(names: Seq<Seq<char>>, deps: Seq<Seq<usize>>, o1: Seq<usize>, o2: Seq<usize>, p: int)
    requires
        names.len() == deps.len(),
        names_distinct(names),
        is_dependency_order(deps, o1),
        is_dependency_order(deps, o2),
        takes_smallest(names, deps, o1),
        takes_smallest(names, deps, o2),
        0 <= p <= o1.len(),
        p <= o2.len(),
        o1.subrange(0, p) == o2.subrange(0, p),
    ensures
        o1 == o2,
    decreases o1.len() - p,
{
    if p == o1.len() && p == o2.len() {
        assert(o1 =~= o1.subrange(0, p));
        assert(o2 =~= o2.subrange(0, p));
    } else if p == o1.len() {
        let y = o2[p];
        assert(o1.contains(y));
        let q = choose|q: int| 0 <= q < o1.len() && o1[q] == y;
        assert(o1.subrange(0, p)[q] == y);
        assert(o2[q] == y);
    } else if p == o2.len() {
        let x = o1[p];
        assert(o2.contains(x));
        let q = choose|q: int| 0 <= q < o2.len() && o2[q] == x;
        assert(o2.subrange(0, p)[q] == x);
        assert(o1[q] == x);
    } else {
        let x = o1[p];
        let y = o2[p];
        let pre = o1.subrange(0, p);
        assert(pre == o2.subrange(0, p));
        assert(!pre.contains(x)) by {
            if pre.contains(x) {
                let q = choose|q: int| 0 <= q < pre.len() && pre[q] == x;
                assert(o1[q] == o1[p]);
            }
        }
        assert(!pre.contains(y)) by {
            if pre.contains(y) {
                let q = choose|q: int| 0 <= q < pre.len() && pre[q] == y;
                assert(o2[q] == o2[p]);
            }
        }
        assert(deps_placed(deps, o1.subrange(0, p), x as int));
        assert(deps_placed(deps, o2.subrange(0, p), y as int));
        assert(!lex_lt(names[y as int], names[o1[p] as int]));
        assert(!lex_lt(names[x as int], names[o2[p] as int]));
        lemma_lex_lt_total(names[x as int], names[y as int]);
        if x != y {
            if x < y {
                assert(names[x as int] != names[y as int]);
            } else {
                assert(names[y as int] != names[x as int]);
            }
        }
        assert(o1.subrange(0, p + 1) =~= o1.subrange(0, p).push(x));
        assert(o2.subrange(0, p + 1) =~= o2.subrange(0, p).push(y));
        lemma_common_prefix(names, deps, o1, o2, p + 1);
    }
}

} // verus!
