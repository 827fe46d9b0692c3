//! Referential-integrity validation of an entity graph: dangling
//! references, cyclic group nesting and cycles among runtime dependency
//! edges, collected exhaustively in a single pass.

use vstd::prelude::*;

use crate::module_map::{DependencyEdge, Module, ModuleGroup, ModuleMap, id_list_contains, spec_find_group, spec_id_list_contains};
use crate::strutil::str_eq;
use crate::types::DependencyType;

verus! {

pub open spec fn spec_has_module_id(modules: Seq<Module>, id: Seq<char>) -> bool {
    exists|i: int| 0 <= i < modules.len() && modules[i].id@ == id
}

pub open spec fn spec_has_group_id(groups: Seq<ModuleGroup>, id: Seq<char>) -> bool {
    exists|i: int| 0 <= i < groups.len() && groups[i].id@ == id
}

pub open spec fn spec_has_domain_id(domains: Seq<crate::module_map::Domain>, id: Seq<char>) -> bool {
    exists|i: int| 0 <= i < domains.len() && domains[i].id@ == id
}

/// An integrity violation found while validating an entity graph.
#[derive(Debug, Clone, PartialEq)]
pub enum GraphIntegrityError {
    /// `from` references a module id that no module carries.
    DanglingModuleReference { from: String, missing_id: String },
    /// `from` references a group id that no group carries.
    DanglingGroupReference { from: String, missing_id: String },
    /// `from` references a domain id that no domain carries.
    DanglingDomainReference { from: String, missing_id: String },
    /// A parent-group chain does not terminate; the chain holds the walked
    /// group ids, starting from the group where the walk began.
    CyclicGroupNesting { chain: Vec<String> },
    /// The runtime dependency edges admit no topological order; the chain
    /// holds the module ids entangled in the cyclic structure.
    DependencyCycle { chain: Vec<String> },
}

/// Every member id of every group names an existing module.
pub open spec fn spec_group_members_ok(m: ModuleMap) -> bool {
    forall|a: int, b: int|
        0 <= a < m.groups@.len() && 0 <= b < m.groups@[a].module_ids@.len()
            ==> spec_has_module_id(m.modules@, #[trigger] m.groups@[a].module_ids@[b]@)
}

/// Every set parent group id names an existing group.
pub open spec fn spec_group_parents_ok(m: ModuleMap) -> bool {
    forall|a: int|
        0 <= a < m.groups@.len() && #[trigger] m.groups@[a].parent_group_id is Some
            ==> spec_has_group_id(m.groups@, m.groups@[a].parent_group_id->0@)
}

/// Every set domain id on a group names an existing domain.
pub open spec fn spec_group_domains_ok(m: ModuleMap) -> bool {
    forall|a: int|
        0 <= a < m.groups@.len() && #[trigger] m.groups@[a].domain_id is Some
            ==> spec_has_domain_id(m.domains@, m.groups@[a].domain_id->0@)
}

/// Every member id of every domain names an existing group.
pub open spec fn spec_domain_groups_ok(m: ModuleMap) -> bool {
    forall|a: int, b: int|
        0 <= a < m.domains@.len() && 0 <= b < m.domains@[a].group_ids@.len()
            ==> spec_has_group_id(m.groups@, #[trigger] m.domains@[a].group_ids@[b]@)
}

/// Every dependency of every module names an existing module.
pub open spec fn spec_module_deps_ok(m: ModuleMap) -> bool {
    forall|a: int, b: int|
        0 <= a < m.modules@.len() && 0 <= b < m.modules@[a].dependencies@.len()
            ==> spec_has_module_id(
            m.modules@,
            (#[trigger] m.modules@[a].dependencies@[b]).module_id@,
        )
}

/// The dependency edges of the graph, empty when no graph is attached.
pub open spec fn spec_edges(m: ModuleMap) -> Seq<DependencyEdge> {
    match m.dependency_graph {
        Some(g) => g.edges@,
        None => Seq::empty(),
    }
}

/// Both endpoints of every dependency edge name existing modules.
pub open spec fn spec_edges_ok(m: ModuleMap) -> bool {
    forall|k: int|
        0 <= k < spec_edges(m).len() ==> spec_has_module_id(
            m.modules@,
            (#[trigger] spec_edges(m)[k]).from@,
        ) && spec_has_module_id(m.modules@, spec_edges(m)[k].to@)
}

/// No reference in the graph dangles.
pub open spec fn spec_refs_ok(m: ModuleMap) -> bool {
    &&& spec_group_members_ok(m)
    &&& spec_group_parents_ok(m)
    &&& spec_group_domains_ok(m)
    &&& spec_domain_groups_ok(m)
    &&& spec_module_deps_ok(m)
    &&& spec_edges_ok(m)
}

/// The parent chain starting at `id` reaches a group without a parent (or
/// leaves the group list) within `fuel` steps.
pub open spec fn spec_parent_chain_ok(groups: Seq<ModuleGroup>, id: Seq<char>, fuel: nat) -> bool
    decreases fuel,
{
    if fuel == 0 {
        false
    } else {
        match spec_find_group(groups, id) {
            None => true,
            Some(g) => match g.parent_group_id {
                None => true,
                Some(p) => spec_parent_chain_ok(groups, p@, (fuel - 1) as nat),
            },
        }
    }
}

/// Every group's parent chain terminates: no group is its own ancestor.
pub open spec fn spec_groups_acyclic(groups: Seq<ModuleGroup>) -> bool {
    forall|i: int|
        0 <= i < groups.len() ==> spec_parent_chain_ok(
            groups,
            (#[trigger] groups[i]).id@,
            groups.len(),
        )
}


/// How many entries of a boolean sequence are set.
pub open spec fn count_true(s: Seq<bool>) -> int
    decreases s.len(),
{
    if s.len() == 0 {
        0
    } else {
        count_true(s.drop_last()) + if s.last() {
            1int
        } else {
            0int
        }
    }
}

proof fn lemma_count_true_bounds(s: Seq<bool>)
    ensures
        0 <= count_true(s) <= s.len(),
    decreases s.len(),
{
    if s.len() > 0 {
        lemma_count_true_bounds(s.drop_last());
    }
}

proof fn lemma_count_true_all_false(s: Seq<bool>)
    requires
        forall|i: int| 0 <= i < s.len() ==> !s[i],
    ensures
        count_true(s) == 0,
    decreases s.len(),
{
    if s.len() > 0 {
        lemma_count_true_all_false(s.drop_last());
    }
}

proof fn lemma_count_true_update(s: Seq<bool>, i: int)
    requires
        0 <= i < s.len(),
        !s[i],
    ensures
        count_true(s.update(i, true)) == count_true(s) + 1,
    decreases s.len(),
{
    let t = s.update(i, true);
    if i == s.len() - 1 {
        assert(t.drop_last() =~= s.drop_last());
        assert(t.last() && !s.last());
    } else {
        assert(t.drop_last() =~= s.drop_last().update(i, true));
        assert(t.last() == s.last());
        lemma_count_true_update(s.drop_last(), i);
    }
}

/// `order` is a topological numbering of the runtime edges whose endpoints
/// both name existing modules.
pub open spec fn spec_is_topo_order(
    order: Map<Seq<char>, int>,
    modules: Seq<Module>,
    edges: Seq<DependencyEdge>,
) -> bool {
    forall|k: int|
        0 <= k < edges.len() && (#[trigger] edges[k]).edge_type == DependencyType::Runtime
            && spec_has_module_id(modules, edges[k].from@) && spec_has_module_id(
            modules,
            edges[k].to@,
        ) ==> order[edges[k].from@] < order[edges[k].to@]
}

/// The runtime dependency edges are acyclic: some numbering of the module
/// ids makes every runtime edge go strictly upward.
pub open spec fn spec_runtime_acyclic(modules: Seq<Module>, edges: Seq<DependencyEdge>) -> bool {
    exists|order: Map<Seq<char>, int>| spec_is_topo_order(order, modules, edges)
}

/// Node `i` of the id list still has an incoming runtime edge from a node
/// that has not been removed yet.
pub open spec fn spec_blocked(
    ids: Seq<String>,
    removed: Seq<bool>,
    edges: Seq<DependencyEdge>,
    i: int,
) -> bool {
    exists|k: int, b: int|
        0 <= k < edges.len() && 0 <= b < ids.len() && (#[trigger] edges[k]).edge_type
            == DependencyType::Runtime && edges[k].to@ == ids[i]@ && !(#[trigger] removed[b])
            && ids[b]@ == edges[k].from@
}

/// Executable test for `spec_blocked`.
fn is_blocked(ids: &Vec<String>, removed: &Vec<bool>, edges: &Vec<DependencyEdge>, i: usize) -> (r: bool)
    requires
        i < ids@.len(),
        removed@.len() == ids@.len(),
    ensures
        r == spec_blocked(ids@, removed@, edges@, i as int),
{
    let ne = edges.len();
    let mut k: usize = 0;
    while k < ne
        invariant
            k <= ne,
            ne == edges@.len(),
            i < ids@.len(),
            removed@.len() == ids@.len(),
            forall|k2: int, b: int|
                0 <= k2 < k && 0 <= b < ids@.len() ==> !((#[trigger] edges@[k2]).edge_type
                    == DependencyType::Runtime && edges@[k2].to@ == ids@[i as int]@ && !(
                #[trigger] removed@[b]) && ids@[b]@ == edges@[k2].from@),
        decreases ne - k,
    {
        let is_runtime = match edges[k].edge_type {
            DependencyType::Runtime => true,
            _ => false,
        };
        if is_runtime && str_eq(edges[k].to.as_str(), ids[i].as_str()) {
            let n = ids.len();
            let mut b: usize = 0;
            while b < n
                invariant
                    b <= n,
                    k < ne,
                    i < ids@.len(),
                    n == ids@.len(),
                    ne == edges@.len(),
                    removed@.len() == ids@.len(),
                    edges@[k as int].edge_type == DependencyType::Runtime,
                    edges@[k as int].to@ == ids@[i as int]@,
                    forall|b2: int|
                        0 <= b2 < b ==> !(!(#[trigger] removed@[b2]) && ids@[b2]@
                            == edges@[k as int].from@),
                decreases n - b,
            {
                if !removed[b] && str_eq(ids[b].as_str(), edges[k].from.as_str()) {
                    proof {
                        let ki = k as int;
                        let bi = b as int;
                        assert(edges@[ki].edge_type == DependencyType::Runtime);
                        assert(edges@[ki].to@ == ids@[i as int]@);
                        assert(!removed@[bi] && ids@[bi]@ == edges@[ki].from@);
                        assert(spec_blocked(ids@, removed@, edges@, i as int));
                    }
                    return true;
                }
                b = b + 1;
            }
        }
        k = k + 1;
    }
    false
}

/// Among the indices below `n` that are not removed, one has a minimal
/// order value.
proof fn lemma_min_remaining(
    ids: Seq<String>,
    removed: Seq<bool>,
    order: Map<Seq<char>, int>,
    n: int,
) -> (v: int)
    requires
        0 <= n <= ids.len(),
        removed.len() == ids.len(),
        exists|i: int| 0 <= i < n && !removed[i],
    ensures
        0 <= v < n && !removed[v],
        forall|u: int| 0 <= u < n && !removed[u] ==> order[ids[v]@] <= order[ids[u]@],
    decreases n,
{
    if exists|i: int| 0 <= i < n - 1 && !removed[i] {
        let w = lemma_min_remaining(ids, removed, order, n - 1);
        if !removed[n - 1] && order[ids[n - 1]@] < order[ids[w]@] {
            n - 1
        } else {
            w
        }
    } else {
        let i0 = choose|i: int| 0 <= i < n && !removed[i];
        assert(i0 == n - 1);
        n - 1
    }
}

/// When every remaining node has an incoming runtime edge from a remaining
/// node, and something remains, no topological numbering exists.
proof fn lemma_stall_not_acyclic(
    modules: Seq<Module>,
    edges: Seq<DependencyEdge>,
    ids: Seq<String>,
    removed: Seq<bool>,
)
    requires
        removed.len() == ids.len(),
        forall|a: int, b: int|
            0 <= a < b < ids.len() ==> (#[trigger] ids[a])@ != (#[trigger] ids[b])@,
        forall|a: int|
            0 <= a < ids.len() ==> spec_has_module_id(modules, (#[trigger] ids[a])@),
        exists|i: int| 0 <= i < ids.len() && !removed[i],
        forall|i: int|
            0 <= i < ids.len() && !(#[trigger] removed[i]) ==> spec_blocked(ids, removed, edges, i),
    ensures
        !spec_runtime_acyclic(modules, edges),
{
    if spec_runtime_acyclic(modules, edges) {
        let order = choose|order: Map<Seq<char>, int>| spec_is_topo_order(order, modules, edges);
        let v = lemma_min_remaining(ids, removed, order, ids.len() as int);
        assert(spec_blocked(ids, removed, edges, v));
        let (k, b) = choose|k: int, b: int|
            0 <= k < edges.len() && 0 <= b < ids.len() && (#[trigger] edges[k]).edge_type
                == DependencyType::Runtime && edges[k].to@ == ids[v]@ && !(#[trigger] removed[b])
                && ids[b]@ == edges[k].from@;
        assert(spec_has_module_id(modules, edges[k].from@)) by {
            assert(ids[b]@ == edges[k].from@);
        }
        assert(spec_has_module_id(modules, edges[k].to@)) by {
            assert(ids[v]@ == edges[k].to@);
        }
        assert(order[edges[k].from@] < order[edges[k].to@]);
        assert(order[ids[b]@] < order[ids[v]@]);
        assert(order[ids[v]@] <= order[ids[b]@]);
        assert(false);
    }
}

/// Searches for a witness that the runtime dependency edges are acyclic.
/// None when a topological order exists; otherwise the ids of the modules
/// entangled in the cyclic structure, nonempty.
fn find_runtime_cycle(modules: &Vec<Module>, edges: &Vec<DependencyEdge>) -> (r: Option<Vec<String>>)
    ensures
        r is None <==> spec_runtime_acyclic(modules@, edges@),
        r matches Some(chain) ==> chain@.len() > 0,
{
    // The distinct module ids, first occurrences in document order.
    let nm = modules.len();
    let mut ids: Vec<String> = Vec::new();
    let mut j: usize = 0;
    while j < nm
        invariant
            j <= nm,
            nm == modules@.len(),
            forall|a: int, b: int|
                0 <= a < b < ids@.len() ==> (#[trigger] ids@[a])@ != (#[trigger] ids@[b])@,
            forall|a: int|
                0 <= a < ids@.len() ==> spec_has_module_id(modules@, (#[trigger] ids@[a])@),
            forall|x: int|
                0 <= x < j ==> spec_id_list_contains(ids@, (#[trigger] modules@[x]).id@),
        decreases nm - j,
    {
        let ghost prev = ids@;
        if !id_list_contains(&ids, modules[j].id.as_str()) {
            ids.push(modules[j].id.clone());
            proof {
                assert(ids@[prev.len() as int]@ == modules@[j as int].id@);
                assert(forall|a: int| 0 <= a < prev.len() ==> ids@[a] == prev[a]);
                assert(spec_has_module_id(modules@, modules@[j as int].id@));
            }
        }
        proof {
            assert(spec_id_list_contains(ids@, modules@[j as int].id@)) by {
                if prev.len() < ids@.len() {
                    assert(ids@[prev.len() as int]@ == modules@[j as int].id@);
                } else {
                    let jid = modules@[j as int].id@;
                    let a = choose|a: int| 0 <= a < prev.len() && prev[a]@ == jid;
                    assert(ids@[a]@ == modules@[j as int].id@);
                }
            }
            assert forall|x: int|
                0 <= x < j + 1 implies spec_id_list_contains(
                ids@,
                (#[trigger] modules@[x]).id@,
            ) by {
                if x < j {
                    let a = choose|a: int| 0 <= a < prev.len() && prev[a]@ == modules@[x].id@;
                    assert(ids@[a]@ == modules@[x].id@);
                }
            }
        }
        j = j + 1;
    }
    let n = ids.len();
    let mut removed: Vec<bool> = vec![false; n];
    let ghost mut order: Map<Seq<char>, int> = Map::empty();
    let ghost mut counter: int = 0;
    proof {
        lemma_count_true_all_false(removed@);
    }
    loop
        invariant
            n == ids@.len(),
            removed@.len() == n,
            counter == count_true(removed@),
            0 <= counter <= n,
            forall|a: int, b: int|
                0 <= a < b < ids@.len() ==> (#[trigger] ids@[a])@ != (#[trigger] ids@[b])@,
            forall|a: int|
                0 <= a < ids@.len() ==> spec_has_module_id(modules@, (#[trigger] ids@[a])@),
            forall|x: int|
                0 <= x < modules@.len() ==> spec_id_list_contains(
                    ids@,
                    (#[trigger] modules@[x]).id@,
                ),
            nm == modules@.len(),
            forall|x: Seq<char>|
                order.contains_key(x) ==> exists|a: int|
                    0 <= a < ids@.len() && #[trigger] removed@[a] && ids@[a]@ == x,
            forall|a: int|
                0 <= a < ids@.len() && #[trigger] removed@[a] ==> order.contains_key(ids@[a]@)
                    && order[ids@[a]@] < counter,
            forall|a: int, k: int|
                0 <= a < ids@.len() && #[trigger] removed@[a] && 0 <= k < edges@.len() && (
                #[trigger] edges@[k]).edge_type == DependencyType::Runtime && edges@[k].to@
                    == ids@[a]@ && spec_has_module_id(modules@, edges@[k].from@)
                    ==> order.contains_key(edges@[k].from@) && order[edges@[k].from@] < order[ids@[a]@],
        ensures
            removed@.len() == n == ids@.len(),
            nm == modules@.len(),
            forall|a: int, b: int|
                0 <= a < b < ids@.len() ==> (#[trigger] ids@[a])@ != (#[trigger] ids@[b])@,
            forall|a: int|
                0 <= a < ids@.len() ==> spec_has_module_id(modules@, (#[trigger] ids@[a])@),
            forall|x: int|
                0 <= x < modules@.len() ==> spec_id_list_contains(
                    ids@,
                    (#[trigger] modules@[x]).id@,
                ),
            forall|a: int|
                0 <= a < ids@.len() && #[trigger] removed@[a] ==> order.contains_key(ids@[a]@),
            forall|a: int, k: int|
                0 <= a < ids@.len() && #[trigger] removed@[a] && 0 <= k < edges@.len() && (
                #[trigger] edges@[k]).edge_type == DependencyType::Runtime && edges@[k].to@
                    == ids@[a]@ && spec_has_module_id(modules@, edges@[k].from@)
                    ==> order.contains_key(edges@[k].from@) && order[edges@[k].from@] < order[ids@[a]@],
            (forall|a: int| 0 <= a < ids@.len() ==> #[trigger] removed@[a]) || ((exists|i: int|
                0 <= i < ids@.len() && !removed@[i]) && (forall|i: int|
                0 <= i < ids@.len() && !(#[trigger] removed@[i]) ==> spec_blocked(
                    ids@,
                    removed@,
                    edges@,
                    i,
                ))),
        decreases n - count_true(removed@),
    {
        // Scan for a node with no incoming runtime edge from the remainder.
        let mut cand: Option<usize> = None;
        let mut saw_remaining: bool = false;
        let mut i: usize = 0;
        while i < n
            invariant
                i <= n,
                n == ids@.len(),
                removed@.len() == n,
                cand is None ==> (forall|i2: int|
                    0 <= i2 < i && !(#[trigger] removed@[i2]) ==> spec_blocked(
                        ids@,
                        removed@,
                        edges@,
                        i2,
                    )),
                cand is None ==> (saw_remaining <==> (exists|i2: int|
                    0 <= i2 < i && !removed@[i2])),
                cand matches Some(c) ==> c < n && !removed@[c as int] && !spec_blocked(
                    ids@,
                    removed@,
                    edges@,
                    c as int,
                ),
            ensures
                cand is None ==> i == n,
                cand is None ==> (forall|i2: int|
                    0 <= i2 < n && !(#[trigger] removed@[i2]) ==> spec_blocked(
                        ids@,
                        removed@,
                        edges@,
                        i2,
                    )),
                cand is None ==> (saw_remaining <==> (exists|i2: int|
                    0 <= i2 < n && !removed@[i2])),
                cand matches Some(c) ==> c < n && !removed@[c as int] && !spec_blocked(
                    ids@,
                    removed@,
                    edges@,
                    c as int,
                ),
            decreases n - i,
        {
            if !removed[i] {
                saw_remaining = true;
                if !is_blocked(&ids, &removed, edges, i) {
                    cand = Some(i);
                    break;
                }
            }
            i = i + 1;
        }
        match cand {
            Some(c) => {
                let ghost old_removed = removed@;
                let ghost old_order = order;
                removed.set(c, true);
                proof {
                    order = order.insert(ids@[c as int]@, counter);
                    counter = counter + 1;
                    assert(removed@ == old_removed.update(c as int, true));
                    lemma_count_true_update(old_removed, c as int);
                    lemma_count_true_bounds(removed@);
                    assert forall|a: int|
                        0 <= a < ids@.len() && #[trigger] removed@[a] implies order.contains_key(
                        ids@[a]@,
                    ) && order[ids@[a]@] < counter by {
                        if a == c {
                            assert(order[ids@[c as int]@] == counter - 1);
                        } else {
                            assert(old_removed[a]);
                            assert(ids@[a]@ != ids@[c as int]@);
                        }
                    }
                    assert forall|x: Seq<char>| order.contains_key(x) implies exists|a: int|
                        0 <= a < ids@.len() && #[trigger] removed@[a] && ids@[a]@ == x by {
                        if x == ids@[c as int]@ {
                            assert(removed@[c as int] && ids@[c as int]@ == x);
                        } else {
                            assert(old_order.contains_key(x));
                            let a = choose|a: int|
                                0 <= a < ids@.len() && #[trigger] old_removed[a] && ids@[a]@ == x;
                            assert(removed@[a] && ids@[a]@ == x);
                        }
                    }
                    assert forall|a: int, k: int|
                        0 <= a < ids@.len() && #[trigger] removed@[a] && 0 <= k < edges@.len()
                            && (#[trigger] edges@[k]).edge_type == DependencyType::Runtime
                            && edges@[k].to@ == ids@[a]@ && spec_has_module_id(
                            modules@,
                            edges@[k].from@,
                        ) implies order.contains_key(edges@[k].from@) && order[edges@[k].from@]
                        < order[ids@[a]@] by {
                        if a == c {
                            // c was not blocked: the source of every incoming
                            // runtime edge is already removed.
                            let x = edges@[k].from@;
                            let m0 = choose|m0: int|
                                0 <= m0 < modules@.len() && modules@[m0].id@ == x;
                            assert(spec_id_list_contains(ids@, modules@[m0].id@));
                            let b = choose|b: int|
                                0 <= b < ids@.len() && ids@[b]@ == modules@[m0].id@;
                            assert(old_removed[b]) by {
                                if !old_removed[b] {
                                    assert(spec_blocked(ids@, old_removed, edges@, c as int));
                                }
                            }
                            assert(removed@[b]);
                            assert(old_order.contains_key(ids@[b]@));
                            assert(old_order[ids@[b]@] < counter - 1);
                            assert(ids@[b]@ != ids@[c as int]@) by {
                                if b != c {
                                    if b < c {
                                        assert((#[trigger] ids@[b])@ != (#[trigger] ids@[c as int])@);
                                    } else {
                                        assert((#[trigger] ids@[c as int])@ != (#[trigger] ids@[b])@);
                                    }
                                }
                                assert(b != c);
                            }
                            assert(order[x] == old_order[ids@[b]@]);
                            assert(order[ids@[c as int]@] == counter - 1);
                        } else {
                            assert(old_removed[a]);
                            assert(old_order.contains_key(edges@[k].from@));
                            assert(old_order[edges@[k].from@] < old_order[ids@[a]@]);
                            // Neither key is the freshly inserted one.
                            let x = edges@[k].from@;
                            let bx = choose|b: int|
                                0 <= b < ids@.len() && #[trigger] old_removed[b] && ids@[b]@ == x;
                            assert(bx != c && a != c);
                            assert(ids@[bx]@ != ids@[c as int]@ && ids@[a]@ != ids@[c as int]@);
                            let aid = ids@[a]@;
                            assert(order[x] == old_order[x] && order[aid] == old_order[aid]);
                        }
                    }
                }
            },
            None => {
                proof {
                    if saw_remaining {
                        assert((exists|i2: int| 0 <= i2 < n && !removed@[i2]) && (forall|i2: int|
                            0 <= i2 < ids@.len() && !(#[trigger] removed@[i2]) ==> spec_blocked(
                                ids@,
                                removed@,
                                edges@,
                                i2,
                            )));
                    } else {
                        assert forall|a: int| 0 <= a < ids@.len() implies #[trigger] removed@[a] by {
                            if !removed@[a] {
                                assert(exists|i2: int| 0 <= i2 < n && !removed@[i2]);
                            }
                        }
                    }
                }
                break;
            },
        }
    }
    // Either everything was numbered, or the remainder is all blocked.
    let mut all_removed = true;
    let mut i: usize = 0;
    while i < n
        invariant
            i <= n,
            n == ids@.len(),
            removed@.len() == n,
            all_removed <==> (forall|a: int| 0 <= a < i ==> #[trigger] removed@[a]),
        decreases n - i,
    {
        if !removed[i] {
            all_removed = false;
        }
        i = i + 1;
    }
    if all_removed {
        proof {
            assert(spec_is_topo_order(order, modules@, edges@)) by {
                assert forall|k: int|
                    0 <= k < edges@.len() && (#[trigger] edges@[k]).edge_type
                        == DependencyType::Runtime && spec_has_module_id(
                        modules@,
                        edges@[k].from@,
                    ) && spec_has_module_id(modules@, edges@[k].to@) implies order[edges@[k].from@]
                    < order[edges@[k].to@] by {
                    let m0 = choose|m0: int|
                        0 <= m0 < modules@.len() && modules@[m0].id@ == edges@[k].to@;
                    assert(spec_id_list_contains(ids@, modules@[m0].id@));
                    let a = choose|a: int| 0 <= a < ids@.len() && ids@[a]@ == modules@[m0].id@;
                    assert(removed@[a]);
                    assert(edges@[k].to@ == ids@[a]@);
                }
            }
        }
        None
    } else {
        let mut chain: Vec<String> = Vec::new();
        let mut i2: usize = 0;
        while i2 < n
            invariant
                i2 <= n,
                n == ids@.len(),
                removed@.len() == n,
                (exists|a: int| 0 <= a < i2 && !removed@[a]) ==> chain@.len() > 0,
            decreases n - i2,
        {
            if !removed[i2] {
                chain.push(ids[i2].clone());
            }
            i2 = i2 + 1;
        }
        proof {
            lemma_stall_not_acyclic(modules@, edges@, ids@, removed@);
        }
        Some(chain)
    }
}

/// The error list mentions a dangling module reference from `from` to
/// `missing`.
pub open spec fn spec_lists_dangling_module(
    es: Seq<GraphIntegrityError>,
    from: Seq<char>,
    missing: Seq<char>,
) -> bool {
    exists|e: int|
        0 <= e < es.len() && ((#[trigger] es[e]) matches GraphIntegrityError::DanglingModuleReference {
            from: f,
            missing_id: mi,
        } && f@ == from && mi@ == missing)
}

/// Whether one of the modules carries the given id.
pub fn has_module_id(modules: &Vec<Module>, id: &str) -> (r: bool)
    ensures
        r == spec_has_module_id(modules@, id@),
{
    let n = modules.len();
    let mut i: usize = 0;
    while i < n
        invariant
            i <= n,
            n == modules@.len(),
            forall|j: int| 0 <= j < i ==> modules@[j].id@ != id@,
        decreases n - i,
    {
        if str_eq(modules[i].id.as_str(), id) {
            return true;
        }
        i = i + 1;
    }
    false
}

/// Whether one of the groups carries the given id.
pub fn has_group_id(groups: &Vec<ModuleGroup>, id: &str) -> (r: bool)
    ensures
        r == spec_has_group_id(groups@, id@),
{
    let n = groups.len();
    let mut i: usize = 0;
    while i < n
        invariant
            i <= n,
            n == groups@.len(),
            forall|j: int| 0 <= j < i ==> groups@[j].id@ != id@,
        decreases n - i,
    {
        if str_eq(groups[i].id.as_str(), id) {
            return true;
        }
        i = i + 1;
    }
    false
}

/// Whether one of the domains carries the given id.
pub fn has_domain_id(domains: &Vec<crate::module_map::Domain>, id: &str) -> (r: bool)
    ensures
        r == spec_has_domain_id(domains@, id@),
{
    let n = domains.len();
    let mut i: usize = 0;
    while i < n
        invariant
            i <= n,
            n == domains@.len(),
            forall|j: int| 0 <= j < i ==> domains@[j].id@ != id@,
        decreases n - i,
    {
        if str_eq(domains[i].id.as_str(), id) {
            return true;
        }
        i = i + 1;
    }
    false
}

impl ModuleMap {
    /// Walks the parent chain from `id` for at most `fuel` steps; true when
    /// it terminates within the budget.
    fn check_parent_chain(&self, id: &str, fuel: usize) -> (r: bool)
        ensures
            r == spec_parent_chain_ok(self.groups@, id@, fuel as nat),
        decreases fuel,
    {
        if fuel == 0 {
            return false;
        }
        match self.find_group(id) {
            None => true,
            Some(g) => {
                match &g.parent_group_id {
                    None => true,
                    Some(p) => self.check_parent_chain(p.as_str(), fuel - 1),
                }
            },
        }
    }

    /// Collects the parent chain starting at `id`, for diagnostics; each
    /// entry after the first is the parent group id of the group found under
    /// the entry before it. The walk stops at a root, at a missing group, or
    /// after `fuel` steps.
    fn collect_parent_chain(&self, id: &str, fuel: usize) -> (r: Vec<String>)
        ensures
            r@.len() > 0,
            r@[0]@ == id@,
            forall|k: int|
                0 <= k < r@.len() - 1 ==> {
                    let found = spec_find_group(self.groups@, (#[trigger] r@[k])@);
                    found is Some && found->0.parent_group_id is Some
                        && found->0.parent_group_id->0@ == r@[k + 1]@
                },
    {
        let mut chain: Vec<String> = Vec::new();
        chain.push(id.to_owned());
        let mut current: String = id.to_owned();
        let mut left: usize = fuel;
        while left > 0
            invariant
                chain@.len() > 0,
                chain@[0]@ == id@,
                current@ == chain@.last()@,
                forall|k: int|
                    0 <= k < chain@.len() - 1 ==> {
                        let found = spec_find_group(self.groups@, (#[trigger] chain@[k])@);
                        found is Some && found->0.parent_group_id is Some
                            && found->0.parent_group_id->0@ == chain@[k + 1]@
                    },
            decreases left,
        {
            let next: Option<String> = match self.find_group(current.as_str()) {
                None => None,
                Some(g) => {
                    match &g.parent_group_id {
                        None => None,
                        Some(p) => Some(p.clone()),
                    }
                },
            };
            match next {
                None => {
                    return chain;
                },
                Some(p) => {
                    let ghost prev = chain@;
                    chain.push(p.clone());
                    proof {
                        assert(forall|k: int|
                            0 <= k < prev.len() ==> #[trigger] chain@[k] == prev[k]);
                        assert(chain@[prev.len() as int]@ == p@);
                        assert(chain@.last()@ == p@);
                    }
                    current = p;
                },
            }
            left = left - 1;
        }
        chain
    }

    /// The dangling-reference part of validation: one error per dangling
    /// reference, in traversal order. The list is empty exactly when no
    /// reference dangles.
    fn check_references(&self) -> (out: Vec<GraphIntegrityError>)
        ensures
            out@.len() == 0 <==> spec_refs_ok(*self),
            forall|a: int, b: int|
                0 <= a < self.groups@.len() && 0 <= b < self.groups@[a].module_ids@.len()
                    && !spec_has_module_id(
                    self.modules@,
                    (#[trigger] self.groups@[a].module_ids@[b])@,
                ) ==> spec_lists_dangling_module(
                    out@,
                    self.groups@[a].id@,
                    self.groups@[a].module_ids@[b]@,
                ),
    {
        let mut out: Vec<GraphIntegrityError> = Vec::new();
        let ng = self.groups.len();
        // Group member ids must name existing modules.
        let mut i: usize = 0;
        while i < ng
            invariant
                i <= ng,
                ng == self.groups@.len(),
                out@.len() == 0 <==> (forall|a: int, b: int|
                    0 <= a < i && 0 <= b < self.groups@[a].module_ids@.len()
                        ==> spec_has_module_id(
                        self.modules@,
                        (#[trigger] self.groups@[a].module_ids@[b])@,
                    )),
                forall|a: int, b: int|
                    0 <= a < i && 0 <= b < self.groups@[a].module_ids@.len()
                        && !spec_has_module_id(
                        self.modules@,
                        (#[trigger] self.groups@[a].module_ids@[b])@,
                    ) ==> spec_lists_dangling_module(
                        out@,
                        self.groups@[a].id@,
                        self.groups@[a].module_ids@[b]@,
                    ),
            decreases ng - i,
        {
            let nm = self.groups[i].module_ids.len();
            let mut k: usize = 0;
            while k < nm
                invariant
                    i < ng,
                    k <= nm,
                    ng == self.groups@.len(),
                    nm == self.groups@[i as int].module_ids@.len(),
                    out@.len() == 0 <==> ((forall|a: int, b: int|
                        0 <= a < i && 0 <= b < self.groups@[a].module_ids@.len()
                            ==> spec_has_module_id(
                            self.modules@,
                            (#[trigger] self.groups@[a].module_ids@[b])@,
                        )) && (forall|b: int|
                        0 <= b < k ==> spec_has_module_id(
                            self.modules@,
                            (#[trigger] self.groups@[i as int].module_ids@[b])@,
                        ))),
                    forall|a: int, b: int|
                        0 <= a < i && 0 <= b < self.groups@[a].module_ids@.len()
                            && !spec_has_module_id(
                            self.modules@,
                            (#[trigger] self.groups@[a].module_ids@[b])@,
                        ) ==> spec_lists_dangling_module(
                            out@,
                            self.groups@[a].id@,
                            self.groups@[a].module_ids@[b]@,
                        ),
                    forall|b: int|
                        0 <= b < k && !spec_has_module_id(
                            self.modules@,
                            (#[trigger] self.groups@[i as int].module_ids@[b])@,
                        ) ==> spec_lists_dangling_module(
                            out@,
                            self.groups@[i as int].id@,
                            self.groups@[i as int].module_ids@[b]@,
                        ),
                decreases nm - k,
            {
                let ghost prev = out@;
                if !has_module_id(&self.modules, self.groups[i].module_ids[k].as_str()) {
                    let err = GraphIntegrityError::DanglingModuleReference {
                        from: self.groups[i].id.clone(),
                        missing_id: self.groups[i].module_ids[k].clone(),
                    };
                    out.push(err);
                    proof {
                        lemma_push_preserves_listings(prev, err);
                        assert(out@[prev.len() as int] == err);
                    }
                }
                k = k + 1;
            }
            i = i + 1;
        }
        let ghost members_errors = out@;
        // Parent group ids and domain ids on groups must exist.
        let mut i2: usize = 0;
        while i2 < ng
            invariant
                i2 <= ng,
                ng == self.groups@.len(),
                is_extension_of(out@, members_errors),
                out@.len() == 0 <==> (members_errors.len() == 0 && (forall|a: int|
                    0 <= a < i2 && #[trigger] self.groups@[a].parent_group_id is Some
                        ==> spec_has_group_id(
                        self.groups@,
                        self.groups@[a].parent_group_id->0@,
                    )) && (forall|a: int|
                    0 <= a < i2 && #[trigger] self.groups@[a].domain_id is Some
                        ==> spec_has_domain_id(self.domains@, self.groups@[a].domain_id->0@))),
            decreases ng - i2,
        {
            let ghost prev = out@;
            let has_parent_problem = match &self.groups[i2].parent_group_id {
                Some(p) => !has_group_id(&self.groups, p.as_str()),
                None => false,
            };
            if has_parent_problem {
                let parent = match &self.groups[i2].parent_group_id {
                    Some(p) => p.clone(),
                    None => String::new(),
                };
                out.push(
                    GraphIntegrityError::DanglingGroupReference {
                        from: self.groups[i2].id.clone(),
                        missing_id: parent,
                    },
                );
            }
            let ghost prev2 = out@;
            let has_domain_problem = match &self.groups[i2].domain_id {
                Some(d) => !has_domain_id(&self.domains, d.as_str()),
                None => false,
            };
            if has_domain_problem {
                let domain = match &self.groups[i2].domain_id {
                    Some(d) => d.clone(),
                    None => String::new(),
                };
                out.push(
                    GraphIntegrityError::DanglingDomainReference {
                        from: self.groups[i2].id.clone(),
                        missing_id: domain,
                    },
                );
            }
            proof {
                lemma_extension_trans(out@, prev2, prev);
                lemma_extension_trans(out@, prev, members_errors);
            }
            i2 = i2 + 1;
        }
        let ghost group_errors = out@;
        // Domain member group ids must exist.
        let nd = self.domains.len();
        let mut i3: usize = 0;
        while i3 < nd
            invariant
                i3 <= nd,
                nd == self.domains@.len(),
                ng == self.groups@.len(),
                is_extension_of(out@, group_errors),
                is_extension_of(group_errors, members_errors),
                group_errors.len() == 0 ==> (out@.len() == 0 <==> (forall|a: int, b: int|
                    0 <= a < i3 && 0 <= b < self.domains@[a].group_ids@.len()
                        ==> spec_has_group_id(
                        self.groups@,
                        (#[trigger] self.domains@[a].group_ids@[b])@,
                    ))),
                group_errors.len() > 0 ==> out@.len() > 0,
            decreases nd - i3,
        {
            let nk = self.domains[i3].group_ids.len();
            let mut k: usize = 0;
            while k < nk
                invariant
                    i3 < nd,
                    k <= nk,
                    nd == self.domains@.len(),
                    ng == self.groups@.len(),
                    nk == self.domains@[i3 as int].group_ids@.len(),
                    is_extension_of(out@, group_errors),
                    is_extension_of(group_errors, members_errors),
                    group_errors.len() == 0 ==> (out@.len() == 0 <==> ((forall|a: int, b: int|
                        0 <= a < i3 && 0 <= b < self.domains@[a].group_ids@.len()
                            ==> spec_has_group_id(
                            self.groups@,
                            (#[trigger] self.domains@[a].group_ids@[b])@,
                        )) && (forall|b: int|
                        0 <= b < k ==> spec_has_group_id(
                            self.groups@,
                            (#[trigger] self.domains@[i3 as int].group_ids@[b])@,
                        )))),
                    group_errors.len() > 0 ==> out@.len() > 0,
                decreases nk - k,
            {
                let ghost prev = out@;
                if !has_group_id(&self.groups, self.domains[i3].group_ids[k].as_str()) {
                    out.push(
                        GraphIntegrityError::DanglingGroupReference {
                            from: self.domains[i3].id.clone(),
                            missing_id: self.domains[i3].group_ids[k].clone(),
                        },
                    );
                }
                proof {
                    lemma_extension_trans(out@, prev, group_errors);
                }
                k = k + 1;
            }
            i3 = i3 + 1;
        }
        let ghost domain_errors = out@;
        // Module dependencies must name existing modules.
        let nmod = self.modules.len();
        let mut i4: usize = 0;
        while i4 < nmod
            invariant
                i4 <= nmod,
                nmod == self.modules@.len(),
                is_extension_of(out@, domain_errors),
                is_extension_of(domain_errors, members_errors),
                domain_errors.len() == 0 ==> (out@.len() == 0 <==> (forall|a: int, b: int|
                    0 <= a < i4 && 0 <= b < self.modules@[a].dependencies@.len()
                        ==> spec_has_module_id(
                        self.modules@,
                        (#[trigger] self.modules@[a].dependencies@[b]).module_id@,
                    ))),
                domain_errors.len() > 0 ==> out@.len() > 0,
            decreases nmod - i4,
        {
            let nk = self.modules[i4].dependencies.len();
            let mut k: usize = 0;
            while k < nk
                invariant
                    i4 < nmod,
                    k <= nk,
                    nmod == self.modules@.len(),
                    nk == self.modules@[i4 as int].dependencies@.len(),
                    is_extension_of(out@, domain_errors),
                    is_extension_of(domain_errors, members_errors),
                    domain_errors.len() == 0 ==> (out@.len() == 0 <==> ((forall|a: int, b: int|
                        0 <= a < i4 && 0 <= b < self.modules@[a].dependencies@.len()
                            ==> spec_has_module_id(
                            self.modules@,
                            (#[trigger] self.modules@[a].dependencies@[b]).module_id@,
                        )) && (forall|b: int|
                        0 <= b < k ==> spec_has_module_id(
                            self.modules@,
                            (#[trigger] self.modules@[i4 as int].dependencies@[b]).module_id@,
                        )))),
                    domain_errors.len() > 0 ==> out@.len() > 0,
                decreases nk - k,
            {
                let ghost prev = out@;
                if !has_module_id(&self.modules, self.modules[i4].dependencies[k].module_id.as_str()) {
                    out.push(
                        GraphIntegrityError::DanglingModuleReference {
                            from: self.modules[i4].id.clone(),
                            missing_id: self.modules[i4].dependencies[k].module_id.clone(),
                        },
                    );
                }
                proof {
                    lemma_extension_trans(out@, prev, domain_errors);
                }
                k = k + 1;
            }
            i4 = i4 + 1;
        }
        let ghost dep_errors = out@;
        // Edge endpoints must name existing modules.
        match &self.dependency_graph {
            None => {},
            Some(graph) => {
                let ne = graph.edges.len();
                let mut k: usize = 0;
                while k < ne
                    invariant
                        k <= ne,
                        self.dependency_graph is Some,
                        ne == spec_edges(*self).len(),
                        graph.edges@ == spec_edges(*self),
                        is_extension_of(out@, dep_errors),
                        is_extension_of(dep_errors, members_errors),
                        dep_errors.len() == 0 ==> (out@.len() == 0 <==> (forall|b: int|
                            0 <= b < k ==> spec_has_module_id(
                                self.modules@,
                                (#[trigger] spec_edges(*self)[b]).from@,
                            ) && spec_has_module_id(self.modules@, spec_edges(*self)[b].to@))),
                        dep_errors.len() > 0 ==> out@.len() > 0,
                    decreases ne - k,
                {
                    let ghost prev = out@;
                    if !has_module_id(&self.modules, graph.edges[k].from.as_str()) {
                        out.push(
                            GraphIntegrityError::DanglingModuleReference {
                                from: graph.edges[k].from.clone(),
                                missing_id: graph.edges[k].from.clone(),
                            },
                        );
                    }
                    let ghost prev2 = out@;
                    if !has_module_id(&self.modules, graph.edges[k].to.as_str()) {
                        out.push(
                            GraphIntegrityError::DanglingModuleReference {
                                from: graph.edges[k].from.clone(),
                                missing_id: graph.edges[k].to.clone(),
                            },
                        );
                    }
                    proof {
                        lemma_extension_trans(out@, prev2, prev);
                        lemma_extension_trans(out@, prev, dep_errors);
                    }
                    k = k + 1;
                }
            },
        }
        proof {
            lemma_extension_trans(out@, dep_errors, members_errors);
            lemma_extension_preserves_listings(out@, members_errors);
        }
        out
    }
}

/// `b` is a prefix of `a`: the error list only ever grows.
pub open spec fn is_extension_of(a: Seq<GraphIntegrityError>, b: Seq<GraphIntegrityError>) -> bool {
    b.len() <= a.len() && (forall|e: int| 0 <= e < b.len() ==> a[e] == b[e])
}

proof fn lemma_extension_trans(
    a: Seq<GraphIntegrityError>,
    b: Seq<GraphIntegrityError>,
    c: Seq<GraphIntegrityError>,
)
    requires
        is_extension_of(a, b),
        is_extension_of(b, c),
    ensures
        is_extension_of(a, c),
{
}

/// Listings survive extension of the error list.
proof fn lemma_extension_preserves_listings(a: Seq<GraphIntegrityError>, b: Seq<GraphIntegrityError>)
    requires
        is_extension_of(a, b),
    ensures
        forall|from: Seq<char>, missing: Seq<char>|
            spec_lists_dangling_module(b, from, missing) ==> #[trigger] spec_lists_dangling_module(
                a,
                from,
                missing,
            ),
{
    assert forall|from: Seq<char>, missing: Seq<char>|
        spec_lists_dangling_module(b, from, missing) implies #[trigger] spec_lists_dangling_module(
        a,
        from,
        missing,
    ) by {
        let k = choose|k: int|
            0 <= k < b.len() && ((#[trigger] b[k]) matches GraphIntegrityError::DanglingModuleReference {
                from: f,
                missing_id: mi,
            } && f@ == from && mi@ == missing);
        assert(a[k] == b[k]);
    }
}

/// Listings survive pushes onto the error list.
proof fn lemma_push_preserves_listings(prev: Seq<GraphIntegrityError>, e: GraphIntegrityError)
    ensures
        forall|from: Seq<char>, missing: Seq<char>|
            spec_lists_dangling_module(prev, from, missing) ==> #[trigger] spec_lists_dangling_module(
                prev.push(e),
                from,
                missing,
            ),
{
    assert forall|from: Seq<char>, missing: Seq<char>|
        spec_lists_dangling_module(prev, from, missing) implies #[trigger] spec_lists_dangling_module(
        prev.push(e),
        from,
        missing,
    ) by {
        let k = choose|k: int|
            0 <= k < prev.len() && ((#[trigger] prev[k]) matches GraphIntegrityError::DanglingModuleReference {
                from: f,
                missing_id: mi,
            } && f@ == from && mi@ == missing);
        assert(prev.push(e)[k] == prev[k]);
    }
}

/// The full integrity condition of an entity graph: no dangling
/// references, terminating group-nesting chains, and acyclic runtime
/// dependency edges.
pub open spec fn spec_graph_valid(m: ModuleMap) -> bool {
    &&& spec_refs_ok(m)
    &&& spec_groups_acyclic(m.groups@)
    &&& spec_runtime_acyclic(m.modules@, spec_edges(m))
}

impl ModuleMap {
    /// Validates the whole graph in one pass and reports every violation
    /// found: dangling references, cyclic group nesting, and cycles among
    /// runtime dependency edges. Succeeds exactly when the graph has full
    /// integrity; on failure the aggregate error is never empty, and every
    /// group member that names a missing module is reported.
    pub fn validate(&self) -> (r: Result<(), Vec<GraphIntegrityError>>)
        ensures
            r is Ok <==> spec_graph_valid(*self),
            r matches Err(es) ==> es@.len() > 0,
            r matches Err(es) ==> (forall|a: int, b: int|
                0 <= a < self.groups@.len() && 0 <= b < self.groups@[a].module_ids@.len()
                    && !spec_has_module_id(
                    self.modules@,
                    (#[trigger] self.groups@[a].module_ids@[b])@,
                ) ==> spec_lists_dangling_module(
                    es@,
                    self.groups@[a].id@,
                    self.groups@[a].module_ids@[b]@,
                )),
    {
        let mut errors = self.check_references();
        let ghost refs_errors = errors@;
        // Group-nesting chains must terminate.
        let ng = self.groups.len();
        let mut i: usize = 0;
        while i < ng
            invariant
                i <= ng,
                ng == self.groups@.len(),
                is_extension_of(errors@, refs_errors),
                errors@.len() == 0 <==> (refs_errors.len() == 0 && (forall|a: int|
                    0 <= a < i ==> spec_parent_chain_ok(
                        self.groups@,
                        (#[trigger] self.groups@[a]).id@,
                        ng as nat,
                    ))),
            decreases ng - i,
        {
            let ghost prev = errors@;
            if !self.check_parent_chain(self.groups[i].id.as_str(), ng) {
                let chain = self.collect_parent_chain(self.groups[i].id.as_str(), ng);
                errors.push(GraphIntegrityError::CyclicGroupNesting { chain });
            }
            proof {
                lemma_extension_trans(errors@, prev, refs_errors);
            }
            i = i + 1;
        }
        let ghost chain_errors = errors@;
        proof {
            assert((chain_errors.len() == 0) == (refs_errors.len() == 0 && spec_groups_acyclic(
                self.groups@,
            ))) by {
                assert(ng as nat == self.groups@.len());
            }
        }
        // Runtime dependency edges must admit a topological order.
        let cycle: Option<Vec<String>> = match &self.dependency_graph {
            Some(graph) => {
                let c = find_runtime_cycle(&self.modules, &graph.edges);
                proof {
                    assert(spec_edges(*self) == graph.edges@);
                }
                c
            },
            None => {
                proof {
                    let order = Map::<Seq<char>, int>::empty();
                    assert(spec_edges(*self).len() == 0);
                    assert(spec_is_topo_order(order, self.modules@, spec_edges(*self)));
                }
                None
            },
        };
        let ghost prev = errors@;
        match cycle {
            Some(chain) => {
                errors.push(GraphIntegrityError::DependencyCycle { chain });
            },
            None => {},
        }
        proof {
            lemma_extension_trans(errors@, prev, refs_errors);
            lemma_extension_preserves_listings(errors@, refs_errors);
        }
        if errors.len() == 0 {
            Ok(())
        } else {
            Err(errors)
        }
    }
}

} // verus!
