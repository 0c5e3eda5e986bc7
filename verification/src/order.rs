//! Execution ordering: depth-first topological sort with cycle detection.
//!
//! The order is computed by a depth-first traversal with three-color
//! marking: a node is unvisited, in progress on the current traversal
//! path, or done. A node is appended to the order only after all of its
//! dependencies, so the result places every instance strictly after the
//! instances it depends on. Meeting an in-progress node again signals a
//! dependency cycle, and the whole request fails before any worker is
//! invoked. The contract pins both directions down: an order comes back
//! exactly when the graph is acyclic.

use vstd::prelude::*;
use vstd::seq_lib::*;
use vstd::set_lib::*;
use vstd::string::StringExecFns;

use crate::error::AppError;
use crate::graph::{
    conn_endpoints_ok, declares, dep, endpoints_declared, find_node, has_cycle, ids_unique,
    index_of_id, is_cycle, lemma_id_index, lemma_ids_injective, lemma_ids_injective_contra,
    node_ids, GraphDefinition,
};

verus! {

/// The identifier sequence of an order, element by element.
pub open spec fn order_view(order: Seq<String>) -> Seq<Seq<char>> {
    order.map_values(|s: String| s@)
}

/// The position of `id` in `ids`, meaningful when it occurs.
pub open spec fn pos_of(ids: Seq<Seq<char>>, id: Seq<char>) -> int {
    choose|k: int| 0 <= k < ids.len() && ids[k] == id
}

/// What a finished order guarantees: one entry per instance, no
/// repetition, and for every connection the source instance precedes
/// the destination instance.
pub open spec fn order_complete(g: &GraphDefinition, oids: Seq<Seq<char>>) -> bool {
    &&& oids.no_duplicates()
    &&& oids.len() == g.nodes@.len()
    &&& forall|k: int| 0 <= k < oids.len() ==> declares(g, #[trigger] oids[k])
    &&& forall|i: int|
        0 <= i < g.nodes@.len() ==> oids.contains(#[trigger] g.nodes@[i].instance_id@)
    &&& forall|c: int|
        0 <= c < g.connections@.len() ==> pos_of(
            oids,
            (#[trigger] g.connections@[c]).from_node@,
        ) < pos_of(oids, g.connections@[c].to_node@)
}

/// What a finished or partial traversal guarantees about the marks and
/// the order built so far: the order lists exactly the visited
/// instances, without repetition, and every instance in it comes after
/// all instances it depends on.
pub open spec fn order_state_ok(g: &GraphDefinition, visited: Seq<bool>, oids: Seq<Seq<char>>) -> bool {
    &&& visited.len() == g.nodes@.len()
    &&& oids.no_duplicates()
    &&& forall|k: int| 0 <= k < oids.len() ==> declares(g, #[trigger] oids[k])
    &&& forall|i: int|
        0 <= i < g.nodes@.len() ==> ((#[trigger] visited[i]) <==> oids.contains(
            g.nodes@[i].instance_id@,
        ))
    &&& forall|k: int, j: int|
        0 <= k < oids.len() && 0 <= j < g.nodes@.len() && dep(g, index_of_id(g, #[trigger] oids[k]), j)
            ==> oids.subrange(0, k).contains(#[trigger] g.nodes@[j].instance_id@)
}

/// Whether `j` occurs in the dependency list at position `i`.
spec fn dep_listed(ds: Seq<Vec<usize>>, i: int, j: int) -> bool {
    exists|k: int| 0 <= k < ds[i]@.len() && ds[i]@[k] == j
}

/// The dependency lists mirror the graph's connections exactly.
spec fn deps_ok(g: &GraphDefinition, ds: Seq<Vec<usize>>) -> bool {
    &&& ds.len() == g.nodes@.len()
    &&& forall|i: int, k: int|
        0 <= i < ds.len() && 0 <= k < ds[i]@.len() ==> 0 <= #[trigger] ds[i]@[k] < g.nodes@.len()
    &&& forall|i: int, j: int|
        0 <= i < g.nodes@.len() && 0 <= j < g.nodes@.len() ==> ((#[trigger] dep(g, i, j)) <==> (
        #[trigger] dep_listed(ds, i, j)))
}

/// What holds of the in-progress marks and the ghost traversal path:
/// the marks flag exactly the path's members, and along the path each
/// node depends on the next.
spec fn stack_ok(g: &GraphDefinition, stack: Seq<int>, on_stack: Seq<bool>) -> bool {
    &&& on_stack.len() == g.nodes@.len()
    &&& stack.no_duplicates()
    &&& forall|k: int| 0 <= k < stack.len() ==> 0 <= #[trigger] stack[k] < g.nodes@.len()
    &&& forall|i: int| 0 <= i < g.nodes@.len() ==> ((#[trigger] on_stack[i]) <==> stack.contains(i))
    &&& forall|k: int| 0 <= k < stack.len() - 1 ==> dep(g, #[trigger] stack[k], stack[k + 1])
}

/// No instance is both done and in progress.
spec fn marks_disjoint(visited: Seq<bool>, on_stack: Seq<bool>) -> bool {
    forall|i: int|
        0 <= i < visited.len() && i < on_stack.len() ==> !(#[trigger] visited[i]
            && #[trigger] on_stack[i])
}

/// A sequence of distinct values drawn from `0..n` has at most `n`
/// elements.
proof fn lemma_distinct_bounded(s: Seq<int>, n: int)
    requires
        s.no_duplicates(),
        forall|k: int| 0 <= k < s.len() ==> 0 <= #[trigger] s[k] < n,
        0 <= n,
    ensures
        s.len() <= n,
{
    broadcast use vstd::seq_lib::group_seq_lib_default;

    s.unique_seq_to_set();
    assert(s.to_set().subset_of(set_int_range(0, n))) by {
        assert forall|x: int| s.to_set().contains(x) implies set_int_range(0, n).contains(x) by {
            let k = choose|k: int| 0 <= k < s.len() && s[k] == x;
        }
    }
    lemma_int_range(0, n);
    lemma_len_subset(s.to_set(), set_int_range(0, n));
}

/// In a sequence without repetition, the position of an occurring
/// identifier is the index where it occurs.
pub proof fn lemma_pos_unique(ids: Seq<Seq<char>>, k: int)
    requires
        ids.no_duplicates(),
        0 <= k < ids.len(),
    ensures
        pos_of(ids, ids[k]) == k,
{
    assert(0 <= k < ids.len() && ids[k] == ids[k]);
    assert(exists|m: int| 0 <= m < ids.len() && ids[m] == ids[k]);
    let m = pos_of(ids, ids[k]);
}

/// Walking a cycle, positions in a closed order descend without end:
/// from each cycle member on, the position stays below the first
/// member's.
proof fn lemma_cycle_descends(g: &GraphDefinition, oids: Seq<Seq<char>>, p: Seq<int>, m: int)
    requires
        ids_unique(g),
        forall|x: int|
            0 <= x < g.nodes@.len() ==> oids.contains(#[trigger] g.nodes@[x].instance_id@),
        oids.no_duplicates(),
        forall|k: int| 0 <= k < oids.len() ==> declares(g, #[trigger] oids[k]),
        forall|k: int, jj: int|
            0 <= k < oids.len() && 0 <= jj < g.nodes@.len() && dep(
                g,
                index_of_id(g, #[trigger] oids[k]),
                jj,
            ) ==> oids.subrange(0, k).contains(#[trigger] g.nodes@[jj].instance_id@),
        is_cycle(g, p),
        1 <= m < p.len(),
    ensures
        pos_of(oids, g.nodes@[p[m]].instance_id@) < pos_of(oids, g.nodes@[p[0]].instance_id@),
    decreases m,
{
    if m == 1 {
        assert(dep(g, p[0], p[1]));
        lemma_dep_precedes(g, oids, p[0], p[1]);
    } else {
        lemma_cycle_descends(g, oids, p, m - 1);
        assert(dep(g, p[m - 1], p[m]));
        lemma_dep_precedes(g, oids, p[m - 1], p[m]);
    }
}

/// An instance's dependency comes strictly before it in a closed order.
proof fn lemma_dep_precedes(g: &GraphDefinition, oids: Seq<Seq<char>>, i: int, j: int)
    requires
        ids_unique(g),
        forall|x: int|
            0 <= x < g.nodes@.len() ==> oids.contains(#[trigger] g.nodes@[x].instance_id@),
        oids.no_duplicates(),
        forall|k: int| 0 <= k < oids.len() ==> declares(g, #[trigger] oids[k]),
        forall|k: int, jj: int|
            0 <= k < oids.len() && 0 <= jj < g.nodes@.len() && dep(
                g,
                index_of_id(g, #[trigger] oids[k]),
                jj,
            ) ==> oids.subrange(0, k).contains(#[trigger] g.nodes@[jj].instance_id@),
        0 <= i < g.nodes@.len(),
        0 <= j < g.nodes@.len(),
        dep(g, i, j),
    ensures
        pos_of(oids, g.nodes@[j].instance_id@) < pos_of(oids, g.nodes@[i].instance_id@),
{
    assert(oids.contains(g.nodes@[i].instance_id@));
    let kt = choose|k: int| 0 <= k < oids.len() && oids[k] == g.nodes@[i].instance_id@;
    lemma_pos_unique(oids, kt);
    lemma_id_index(g, i);
    assert(index_of_id(g, oids[kt]) == i);
    assert(oids.subrange(0, kt).contains(g.nodes@[j].instance_id@));
    let kf = choose|m: int|
        0 <= m < oids.subrange(0, kt).len() && oids.subrange(0, kt)[m] == g.nodes@[
            j
        ].instance_id@;
    assert(oids[kf] == g.nodes@[j].instance_id@);
    lemma_pos_unique(oids, kf);
}

/// A complete order closed under dependencies rules every cycle out.
proof fn lemma_closed_order_acyclic(g: &GraphDefinition, oids: Seq<Seq<char>>)
    requires
        ids_unique(g),
        forall|x: int|
            0 <= x < g.nodes@.len() ==> oids.contains(#[trigger] g.nodes@[x].instance_id@),
        oids.no_duplicates(),
        forall|k: int| 0 <= k < oids.len() ==> declares(g, #[trigger] oids[k]),
        forall|k: int, jj: int|
            0 <= k < oids.len() && 0 <= jj < g.nodes@.len() && dep(
                g,
                index_of_id(g, #[trigger] oids[k]),
                jj,
            ) ==> oids.subrange(0, k).contains(#[trigger] g.nodes@[jj].instance_id@),
    ensures
        !has_cycle(g),
{
    if has_cycle(g) {
        let p = choose|p: Seq<int>| is_cycle(g, p);
        assert(is_cycle(g, p));
        if p.len() == 1 {
            assert(dep(g, p[0], p[0]));
            lemma_dep_precedes(g, oids, p[0], p[0]);
        } else {
            lemma_cycle_descends(g, oids, p, p.len() - 1);
            assert(dep(g, p[p.len() - 1], p[0]));
            lemma_dep_precedes(g, oids, p[p.len() - 1], p[0]);
        }
    }
}

/// Connections before position `m` make instance `i` depend on `j`.
spec fn dep_upto(g: &GraphDefinition, m: int, i: int, j: int) -> bool {
    exists|cc: int|
        0 <= cc < m && (#[trigger] g.connections@[cc]).from_node@ == g.nodes@[j].instance_id@
            && g.connections@[cc].to_node@ == g.nodes@[i].instance_id@
}

/// One step of the depth-first traversal: make sure the instance at
/// `idx` and everything it depends on stand in the order, or report a
/// cycle.
#[verifier::loop_isolation(false)]
fn visit(
    g: &GraphDefinition,
    deps: &Vec<Vec<usize>>,
    idx: usize,
    visited: &mut Vec<bool>,
    on_stack: &mut Vec<bool>,
    order: &mut Vec<String>,
    Ghost(stack): Ghost<Seq<int>>,
) -> (r: Result<(), AppError>)
    requires
        ids_unique(g),
        deps_ok(g, deps@),
        idx < g.nodes@.len(),
        old(visited)@.len() == g.nodes@.len(),
        stack_ok(g, stack, old(on_stack)@),
        stack.len() > 0 ==> dep(g, stack.last(), idx as int),
        order_state_ok(g, old(visited)@, order_view(old(order)@)),
        marks_disjoint(old(visited)@, old(on_stack)@),
    ensures
        r is Ok ==> ({
            &&& final(on_stack)@ == old(on_stack)@
            &&& final(visited)@.len() == g.nodes@.len()
            &&& forall|i: int| 0 <= i < g.nodes@.len() && old(visited)@[i] ==> final(visited)@[i]
            &&& final(visited)@[idx as int]
            &&& final(order)@.len() >= old(order)@.len()
            &&& final(order)@.subrange(0, old(order)@.len() as int) == old(order)@
            &&& order_state_ok(g, final(visited)@, order_view(final(order)@))
            &&& marks_disjoint(final(visited)@, old(on_stack)@)
        }),
        r matches Err(e) ==> has_cycle(g) && (e matches AppError::BadRequest(m) && m@
            == "Circular dependency detected in graph"@),
    decreases g.nodes@.len() - stack.len(),
{
    let n = g.nodes.len();
    if visited[idx] {
        return Ok(());
    }
    if on_stack[idx] {
        proof {
            assert(stack.contains(idx as int));
            let k = choose|k: int| 0 <= k < stack.len() && stack[k] == idx as int;
            let p = stack.subrange(k, stack.len() as int);
            assert(p[0] == idx as int);
            assert(p[p.len() - 1] == stack[stack.len() - 1]);
            assert(dep(g, p[p.len() - 1], p[0]));
            assert forall|m: int| 0 <= m < p.len() - 1 implies dep(g, #[trigger] p[m], p[m + 1]) by {
                assert(p[m] == stack[k + m]);
                assert(p[m + 1] == stack[k + m + 1]);
            }
            assert(is_cycle(g, p));
        }
        return Err(
            AppError::BadRequest(String::from_str("Circular dependency detected in graph")),
        );
    }
    let ghost stack2 = stack.push(idx as int);
    let ghost on0 = old(on_stack)@;
    let ghost v0 = old(visited)@;
    let ghost ord0 = old(order)@;
    on_stack[idx] = true;
    proof {
        assert(on_stack@ =~= on0.update(idx as int, true));
        assert(stack2.drop_last() =~= stack);
        assert(stack_ok(g, stack2, on_stack@)) by {
            assert(!stack.contains(idx as int));
            assert forall|a: int, b: int| 0 <= a < b < stack2.len() implies stack2[a] != stack2[b]
                by {
                if b < stack2.len() - 1 {
                    assert(stack2[a] == stack[a] && stack2[b] == stack[b]);
                } else {
                    assert(stack2[b] == idx as int);
                    assert(stack2[a] == stack[a]);
                    assert(stack.contains(stack[a]));
                }
            }
            assert forall|i: int| 0 <= i < g.nodes@.len() implies ((#[trigger] on_stack@[i])
                <==> stack2.contains(i)) by {
                if i == idx as int {
                    assert(stack2[stack2.len() - 1] == idx as int);
                    assert(stack2.contains(idx as int));
                } else {
                    if stack.contains(i) {
                        let m = choose|m: int| 0 <= m < stack.len() && stack[m] == i;
                        assert(stack2[m] == i);
                    }
                    if stack2.contains(i) {
                        let m = choose|m: int| 0 <= m < stack2.len() && stack2[m] == i;
                        assert(m < stack.len());
                        assert(stack[m] == i);
                    }
                }
            }
            assert forall|k: int| 0 <= k < stack2.len() - 1 implies dep(
                g,
                #[trigger] stack2[k],
                stack2[k + 1],
            ) by {
                if k < stack.len() - 1 {
                    assert(stack2[k] == stack[k] && stack2[k + 1] == stack[k + 1]);
                } else {
                    assert(stack2[k] == stack.last() && stack2[k + 1] == idx as int);
                }
            }
        }
    }
    let row_len = deps[idx].len();
    let mut k: usize = 0;
    while k < row_len
        invariant
            k <= row_len,
            row_len == deps@[idx as int]@.len(),
            visited@.len() == g.nodes@.len(),
            on_stack@ == on0.update(idx as int, true),
            stack_ok(g, stack2, on_stack@),
            order_state_ok(g, visited@, order_view(order@)),
            marks_disjoint(visited@, on_stack@),
            forall|i: int| 0 <= i < g.nodes@.len() && v0[i] ==> visited@[i],
            forall|m: int| 0 <= m < k ==> visited@[#[trigger] deps@[idx as int]@[m] as int],
            order@.len() >= ord0.len(),
            order@.subrange(0, ord0.len() as int) == ord0,
        decreases row_len - k,
    {
        let d = deps[idx][k];
        proof {
            assert(dep_listed(deps@, idx as int, d as int));
            assert(dep(g, idx as int, d as int));
            assert(stack2.last() == idx as int);
            lemma_distinct_bounded(stack2, n as int);
        }
        let ghost ord_pre = order@;
        match visit(g, deps, d, visited, on_stack, order, Ghost(stack2)) {
            Ok(()) => {},
            Err(e) => {
                return Err(e);
            },
        }
        proof {
            assert(order@.subrange(0, ord0.len() as int) =~= order@.subrange(
                0,
                ord_pre.len() as int,
            ).subrange(0, ord0.len() as int));
        }
        k = k + 1;
    }
    let ghost v_mid = visited@;
    let ghost ord_mid = order@;
    on_stack[idx] = false;
    proof {
        assert(on_stack@ =~= on0);
    }
    visited[idx] = true;
    let id = g.nodes[idx].instance_id.clone();
    order.push(id);
    proof {
        let oids_mid = order_view(ord_mid);
        let oids_new = order_view(order@);
        let this_id = g.nodes@[idx as int].instance_id@;
        assert(order@.drop_last() =~= ord_mid);
        assert(oids_new =~= oids_mid.push(this_id)) by {
            assert forall|m: int| 0 <= m < oids_new.len() implies oids_new[m] == oids_mid.push(
                this_id,
            )[m] by {
                if m < ord_mid.len() {
                    assert(order@[m] == ord_mid[m]);
                }
            }
        }
        assert(!oids_mid.contains(this_id));
        assert(oids_new.no_duplicates()) by {
            assert forall|a: int, b: int| 0 <= a < b < oids_new.len() implies oids_new[a]
                != oids_new[b] by {
                if b < oids_new.len() - 1 {
                    assert(oids_new[a] == oids_mid[a] && oids_new[b] == oids_mid[b]);
                } else {
                    assert(oids_new[b] == this_id);
                    assert(oids_new[a] == oids_mid[a]);
                    assert(oids_mid.contains(oids_mid[a]));
                }
            }
        }
        assert(declares(g, this_id));
        assert forall|i: int| 0 <= i < g.nodes@.len() implies ((#[trigger] visited@[i])
            <==> oids_new.contains(g.nodes@[i].instance_id@)) by {
            if i == idx as int {
                assert(oids_new[oids_new.len() - 1] == this_id);
                assert(oids_new.contains(this_id));
            } else {
                lemma_ids_injective_contra(g, i, idx as int);
                if oids_mid.contains(g.nodes@[i].instance_id@) {
                    let m = choose|m: int|
                        0 <= m < oids_mid.len() && oids_mid[m] == g.nodes@[i].instance_id@;
                    assert(oids_new[m] == g.nodes@[i].instance_id@);
                }
                if oids_new.contains(g.nodes@[i].instance_id@) {
                    let m = choose|m: int|
                        0 <= m < oids_new.len() && oids_new[m] == g.nodes@[i].instance_id@;
                    assert(m < oids_mid.len());
                    assert(oids_mid[m] == g.nodes@[i].instance_id@);
                }
            }
        }
        assert forall|k2: int, j: int|
            0 <= k2 < oids_new.len() && 0 <= j < g.nodes@.len() && dep(
                g,
                index_of_id(g, #[trigger] oids_new[k2]),
                j,
            ) implies oids_new.subrange(0, k2).contains(#[trigger] g.nodes@[j].instance_id@) by {
            if k2 < oids_new.len() - 1 {
                assert(oids_new[k2] == oids_mid[k2]);
                assert(oids_mid.subrange(0, k2).contains(g.nodes@[j].instance_id@));
                let m = choose|m: int|
                    0 <= m < k2 && oids_mid.subrange(0, k2)[m] == g.nodes@[j].instance_id@;
                assert(oids_new.subrange(0, k2)[m] == g.nodes@[j].instance_id@);
            } else {
                assert(oids_new[k2] == this_id);
                lemma_id_index(g, idx as int);
                assert(dep(g, idx as int, j));
                assert(dep_listed(deps@, idx as int, j));
                let m = choose|m: int|
                    0 <= m < deps@[idx as int]@.len() && deps@[idx as int]@[m] == j;
                assert(visited@[deps@[idx as int]@[m] as int] || v_mid[j]);
                assert(v_mid[j]);
                assert(oids_mid.contains(g.nodes@[j].instance_id@));
                let m2 = choose|m2: int|
                    0 <= m2 < oids_mid.len() && oids_mid[m2] == g.nodes@[j].instance_id@;
                assert(oids_new.subrange(0, k2)[m2] == g.nodes@[j].instance_id@);
            }
        }
        assert(order@.subrange(0, ord0.len() as int) =~= ord_mid.subrange(0, ord0.len() as int));
    }
    Ok(())
}

/// Compute a dependency-respecting execution order for the graph's
/// instances by depth-first traversal, or fail with a bad request when
/// the connections form a cycle. An order comes back exactly when the
/// graph is acyclic, and it places every instance after all instances
/// it depends on: for every connection, the source instance precedes
/// the destination instance.
#[verifier::loop_isolation(false)]
pub fn build_execution_order(graph: &GraphDefinition) -> (r: Result<Vec<String>, AppError>)
    requires
        ids_unique(graph),
        endpoints_declared(graph),
    ensures
        r is Ok <==> !has_cycle(graph),
        r matches Ok(order) ==> order@.len() == graph.nodes@.len() && order_complete(
            graph,
            order_view(order@),
        ),
        r matches Err(e) ==> (e matches AppError::BadRequest(m) && m@
            == "Circular dependency detected in graph"@),
{
    let n = graph.nodes.len();
    let mut deps: Vec<Vec<usize>> = Vec::new();
    let mut i: usize = 0;
    while i < n
        invariant
            i <= n,
            deps@.len() == i as int,
            forall|x: int| 0 <= x < i ==> #[trigger] deps@[x]@.len() == 0,
        decreases n - i,
    {
        deps.push(Vec::new());
        i = i + 1;
    }
    let mut c: usize = 0;
    while c < graph.connections.len()
        invariant
            c <= graph.connections.len(),
            deps@.len() == n as int,
            forall|x: int, kk: int|
                0 <= x < n && 0 <= kk < deps@[x]@.len() ==> 0 <= #[trigger] deps@[x]@[kk] < n,
            forall|x: int, j: int|
                0 <= x < n && 0 <= j < n ==> ((#[trigger] dep_upto(graph, c as int, x, j)) <==> (
                #[trigger] dep_listed(deps@, x, j))),
        decreases graph.connections.len() - c,
    {
        let fi = match find_node(graph, graph.connections[c].from_node.as_str()) {
            Some(x) => x,
            None => {
                proof {
                    assert(conn_endpoints_ok(graph, c as int));
                }
                vstd::pervasive::unreached()
            },
        };
        let ti = match find_node(graph, graph.connections[c].to_node.as_str()) {
            Some(x) => x,
            None => {
                proof {
                    assert(conn_endpoints_ok(graph, c as int));
                }
                vstd::pervasive::unreached()
            },
        };
        let ghost dpre = deps@;
        let mut row: Vec<usize> = Vec::new();
        core::mem::swap(&mut row, &mut deps[ti]);
        row.push(fi);
        core::mem::swap(&mut row, &mut deps[ti]);
        proof {
            assert(deps@ =~= dpre.update(ti as int, deps@[ti as int]));
            assert(deps@[ti as int]@ =~= dpre[ti as int]@.push(fi));
            assert forall|x: int, j: int| 0 <= x < n && 0 <= j < n implies ((#[trigger] dep_upto(
                graph,
                c as int + 1,
                x,
                j,
            )) <==> (#[trigger] dep_listed(deps@, x, j))) by {
                if dep_upto(graph, c as int + 1, x, j) {
                    let cc = choose|cc: int|
                        0 <= cc < c as int + 1 && graph.connections@[cc].from_node@ == graph.nodes@[
                            j
                        ].instance_id@ && graph.connections@[cc].to_node@ == graph.nodes@[
                            x
                        ].instance_id@;
                    if cc < c as int {
                        assert(dep_upto(graph, c as int, x, j));
                        assert(dep_listed(dpre, x, j));
                        let m = choose|m: int| 0 <= m < dpre[x]@.len() && dpre[x]@[m] == j;
                        assert(deps@[x]@[m] == j);
                    } else {
                        lemma_ids_injective(graph, j, fi as int);
                        lemma_ids_injective(graph, x, ti as int);
                        assert(deps@[ti as int]@[deps@[ti as int]@.len() - 1] == fi as int);
                    }
                }
                if dep_listed(deps@, x, j) {
                    let m = choose|m: int| 0 <= m < deps@[x]@.len() && deps@[x]@[m] == j;
                    if x == ti as int && m == deps@[x]@.len() - 1 {
                        assert(j == fi as int);
                        assert(graph.connections@[c as int].from_node@ == graph.nodes@[
                            j
                        ].instance_id@);
                        assert(graph.connections@[c as int].to_node@ == graph.nodes@[
                            x
                        ].instance_id@);
                        assert(dep_upto(graph, c as int + 1, x, j));
                    } else {
                        assert(dpre[x]@[m] == j);
                        assert(dep_listed(dpre, x, j));
                        assert(dep_upto(graph, c as int, x, j));
                        let cc = choose|cc: int|
                            0 <= cc < c as int && graph.connections@[cc].from_node@ == graph.nodes@[
                                j
                            ].instance_id@ && graph.connections@[cc].to_node@ == graph.nodes@[
                                x
                            ].instance_id@;
                        assert(dep_upto(graph, c as int + 1, x, j));
                    }
                }
            }
        }
        c = c + 1;
    }
    proof {
        assert(deps_ok(graph, deps@)) by {
            assert forall|x: int, j: int| 0 <= x < n && 0 <= j < n implies ((#[trigger] dep(
                graph,
                x,
                j,
            )) <==> (#[trigger] dep_listed(deps@, x, j))) by {
                if dep(graph, x, j) {
                    let cc = choose|cc: int|
                        0 <= cc < graph.connections@.len() && graph.connections@[cc].from_node@
                            == graph.nodes@[j].instance_id@ && graph.connections@[cc].to_node@
                            == graph.nodes@[x].instance_id@;
                    assert(dep_upto(graph, graph.connections@.len() as int, x, j));
                }
                if dep_listed(deps@, x, j) {
                    assert(dep_upto(graph, graph.connections@.len() as int, x, j));
                    let cc = choose|cc: int|
                        0 <= cc < graph.connections@.len() && graph.connections@[cc].from_node@
                            == graph.nodes@[j].instance_id@ && graph.connections@[cc].to_node@
                            == graph.nodes@[x].instance_id@;
                    assert(dep(graph, x, j));
                }
            }
        }
    }
    let mut visited: Vec<bool> = Vec::new();
    let mut on_stack: Vec<bool> = Vec::new();
    let mut i: usize = 0;
    while i < n
        invariant
            i <= n,
            visited@.len() == i as int,
            on_stack@.len() == i as int,
            forall|x: int| 0 <= x < i ==> !(#[trigger] visited@[x]),
            forall|x: int| 0 <= x < i ==> !(#[trigger] on_stack@[x]),
        decreases n - i,
    {
        visited.push(false);
        on_stack.push(false);
        i = i + 1;
    }
    let mut order: Vec<String> = Vec::new();
    let mut i: usize = 0;
    while i < n
        invariant
            i <= n,
            visited@.len() == n as int,
            on_stack@.len() == n as int,
            forall|x: int| 0 <= x < n ==> !(#[trigger] on_stack@[x]),
            order_state_ok(graph, visited@, order_view(order@)),
            marks_disjoint(visited@, on_stack@),
            forall|x: int| 0 <= x < i ==> #[trigger] visited@[x],
        decreases n - i,
    {
        proof {
            assert(stack_ok(graph, Seq::<int>::empty(), on_stack@));
        }
        match visit(graph, &deps, i, &mut visited, &mut on_stack, &mut order, Ghost(
            Seq::<int>::empty(),
        )) {
            Ok(()) => {},
            Err(e) => {
                return Err(e);
            },
        }
        i = i + 1;
    }
    proof {
        let oids = order_view(order@);
        assert forall|x: int| 0 <= x < n implies oids.contains(
            #[trigger] graph.nodes@[x].instance_id@,
        ) by {
            assert(visited@[x]);
        }
        node_ids(graph).unique_seq_to_set();
        oids.unique_seq_to_set();
        assert(node_ids(graph).to_set() =~= oids.to_set()) by {
            assert forall|id: Seq<char>| node_ids(graph).to_set().contains(id) implies
                oids.to_set().contains(id) by {
                let x = choose|x: int|
                    0 <= x < node_ids(graph).len() && node_ids(graph)[x] == id;
                assert(graph.nodes@[x].instance_id@ == id);
                assert(oids.contains(id));
            }
            assert forall|id: Seq<char>| oids.to_set().contains(id) implies node_ids(
                graph,
            ).to_set().contains(id) by {
                let k = choose|k: int| 0 <= k < oids.len() && oids[k] == id;
                assert(declares(graph, id));
                let x = choose|x: int|
                    0 <= x < graph.nodes@.len() && graph.nodes@[x].instance_id@ == id;
                assert(node_ids(graph)[x] == id);
                assert(node_ids(graph).contains(id));
            }
        }
        lemma_closed_order_acyclic(graph, oids);
        assert forall|c: int| 0 <= c < graph.connections@.len() implies pos_of(
            oids,
            (#[trigger] graph.connections@[c]).from_node@,
        ) < pos_of(oids, graph.connections@[c].to_node@) by {
            assert(conn_endpoints_ok(graph, c));
            let fx = index_of_id(graph, graph.connections@[c].from_node@);
            let tx = index_of_id(graph, graph.connections@[c].to_node@);
            assert(0 <= fx < graph.nodes@.len() && graph.nodes@[fx].instance_id@
                == graph.connections@[c].from_node@);
            assert(0 <= tx < graph.nodes@.len() && graph.nodes@[tx].instance_id@
                == graph.connections@[c].to_node@);
            assert(dep(graph, tx, fx));
            lemma_dep_precedes(graph, oids, tx, fx);
        }
    }
    Ok(order)
}

} // verus!
