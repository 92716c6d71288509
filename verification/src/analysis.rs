//! Static analyzers that run over a circuit description before simulation or
//! synthesis: the driver-coverage (connectivity) check, the combinational
//! logic-loop detector, and the timing analyzer.

use vstd::prelude::*;
use vstd::seq_lib::*;
use vstd::set_lib::*;

use crate::errors::HdlError;
use crate::graph::{CircuitDesc, CircuitDescV};
use crate::signal::Direction;

verus! {

/// A signal that needs no external driver: anything but an input is driven
/// by its owner, and a signal marked connected is driven from outside the
/// described graph.
pub open spec fn is_driver(d: CircuitDesc, i: int) -> bool {
    d.sigs@[i].dir != Direction::In || d.sigs@[i].connected
}

/// Signals `i` and `j` are aliased by some link edge.
pub open spec fn link_adj(d: CircuitDesc, i: int, j: int) -> bool {
    exists|k: int|
        0 <= k < d.links@.len() && (((#[trigger] d.links@[k]).0 as int == i && d.links@[k].1 as int
            == j) || (d.links@[k].0 as int == j && d.links@[k].1 as int == i))
}

/// Signal `i` reaches a driver through at most `fuel` link hops.
pub open spec fn reaches_driver(d: CircuitDesc, i: int, fuel: nat) -> bool
    decreases fuel,
{
    is_driver(d, i) || (fuel > 0 && exists|j: int|
        0 <= j < d.sigs@.len() && #[trigger] link_adj(d, i, j) && reaches_driver(
            d,
            j,
            (fuel - 1) as nat,
        ))
}

/// Signal `i` has at least one driver reachable through linking.
pub open spec fn has_driver(d: CircuitDesc, i: int) -> bool {
    exists|f: nat| reaches_driver(d, i, f)
}


/// `is_driver`, over the description's mathematical image.
pub open spec fn is_driver_v(v: CircuitDescV, i: int) -> bool {
    v.sigs[i].dir != Direction::In || v.sigs[i].connected
}

/// `link_adj`, over the description's mathematical image.
pub open spec fn link_adj_v(v: CircuitDescV, i: int, j: int) -> bool {
    exists|k: int|
        0 <= k < v.links.len() && (((#[trigger] v.links[k]).0 == i && v.links[k].1 == j) || (
        v.links[k].0 == j && v.links[k].1 == i))
}

/// `reaches_driver`, over the description's mathematical image.
pub open spec fn reaches_driver_v(v: CircuitDescV, i: int, fuel: nat) -> bool
    decreases fuel,
{
    is_driver_v(v, i) || (fuel > 0 && exists|j: int|
        0 <= j < v.sigs.len() && #[trigger] link_adj_v(v, i, j) && reaches_driver_v(
            v,
            j,
            (fuel - 1) as nat,
        ))
}

/// `has_driver`, over the description's mathematical image.
pub open spec fn has_driver_v(v: CircuitDescV, i: int) -> bool {
    exists|f: nat| reaches_driver_v(v, i, f)
}

/// `dep_edge`, over the description's mathematical image.
pub open spec fn dep_edge_v(v: CircuitDescV, a: int, b: int) -> bool {
    exists|k: int| 0 <= k < v.deps.len() && (#[trigger] v.deps[k]).0 == a && v.deps[k].1 == b
}

/// `is_comb_cycle`, over the description's mathematical image.
pub open spec fn is_comb_cycle_v(v: CircuitDescV, p: Seq<int>) -> bool {
    &&& p.len() >= 1
    &&& forall|t: int| 0 <= t < p.len() ==> 0 <= #[trigger] p[t] < v.sigs.len()
    &&& forall|t: int| 0 <= t < p.len() - 1 ==> dep_edge_v(v, #[trigger] p[t], p[t + 1])
    &&& dep_edge_v(v, p[p.len() - 1], p[0])
}

/// `is_comb_chain`, over the description's mathematical image.
pub open spec fn is_comb_chain_v(v: CircuitDescV, p: Seq<int>) -> bool {
    &&& p.len() >= 1
    &&& forall|t: int| 0 <= t < p.len() ==> 0 <= #[trigger] p[t] < v.sigs.len()
    &&& forall|t: int| 0 <= t < p.len() - 1 ==> dep_edge_v(v, #[trigger] p[t], p[t + 1])
}

/// `chain_to`, over the description's mathematical image.
pub open spec fn chain_to_v(v: CircuitDescV, t: int, l: int) -> bool {
    exists|p: Seq<int>| is_comb_chain_v(v, p) && p[p.len() - 1] == t && p.len() == l
}

/// A description and its image agree on link adjacency.
proof fn lemma_view_link_adj(d: CircuitDesc)
    ensures
        forall|i: int, j: int| #[trigger] link_adj(d, i, j) == link_adj_v(d.view_d(), i, j),
{
    assert forall|i: int, j: int| #[trigger] link_adj(d, i, j) == link_adj_v(
        d.view_d(),
        i,
        j,
    ) by {
        if link_adj(d, i, j) {
            let k = choose|k: int|
                0 <= k < d.links@.len() && (((#[trigger] d.links@[k]).0 as int == i && d.links@[
                k].1 as int == j) || (d.links@[k].0 as int == j && d.links@[k].1 as int == i));
            assert(d.view_d().links[k] == ((d.links@[k].0 as int), (d.links@[k].1 as int)));
            assert(link_adj_v(d.view_d(), i, j));
        }
        if link_adj_v(d.view_d(), i, j) {
            let k = choose|k: int|
                0 <= k < d.view_d().links.len() && (((#[trigger] d.view_d().links[k]).0 == i
                    && d.view_d().links[k].1 == j) || (d.view_d().links[k].0 == j && d.view_d(
                ).links[k].1 == i));
            assert(d.view_d().links[k] == ((d.links@[k].0 as int), (d.links@[k].1 as int)));
            assert(link_adj(d, i, j));
        }
    }
}

/// A description and its image agree on driver reachability at every fuel.
proof fn lemma_view_reaches(d: CircuitDesc, fuel: nat)
    ensures
        forall|i: int|
            0 <= i < d.sigs@.len() ==> #[trigger] reaches_driver(d, i, fuel) == reaches_driver_v(
                d.view_d(),
                i,
                fuel,
            ),
    decreases fuel,
{
    lemma_view_link_adj(d);
    if fuel > 0 {
        lemma_view_reaches(d, (fuel - 1) as nat);
    }
    assert forall|i: int|
        0 <= i < d.sigs@.len() implies #[trigger] reaches_driver(d, i, fuel) == reaches_driver_v(
        d.view_d(),
        i,
        fuel,
    ) by {
        assert(is_driver(d, i) == is_driver_v(d.view_d(), i));
        if fuel > 0 {
            if reaches_driver(d, i, fuel) && !is_driver(d, i) {
                let j = choose|j: int|
                    0 <= j < d.sigs@.len() && #[trigger] link_adj(d, i, j) && reaches_driver(
                        d,
                        j,
                        (fuel - 1) as nat,
                    );
                assert(link_adj_v(d.view_d(), i, j) && reaches_driver_v(
                    d.view_d(),
                    j,
                    (fuel - 1) as nat,
                ));
            }
            if reaches_driver_v(d.view_d(), i, fuel) && !is_driver_v(d.view_d(), i) {
                let j = choose|j: int|
                    0 <= j < d.view_d().sigs.len() && #[trigger] link_adj_v(d.view_d(), i, j)
                        && reaches_driver_v(d.view_d(), j, (fuel - 1) as nat);
                assert(link_adj(d, i, j) && reaches_driver(d, j, (fuel - 1) as nat));
            }
        }
    }
}

/// A description and its image agree on driver coverage.
pub proof fn lemma_view_has_driver(d: CircuitDesc)
    ensures
        forall|i: int|
            0 <= i < d.sigs@.len() ==> #[trigger] has_driver(d, i) == has_driver_v(d.view_d(), i),
{
    assert forall|i: int|
        0 <= i < d.sigs@.len() implies #[trigger] has_driver(d, i) == has_driver_v(
        d.view_d(),
        i,
    ) by {
        if has_driver(d, i) {
            let f = choose|f: nat| reaches_driver(d, i, f);
            lemma_view_reaches(d, f);
            assert(reaches_driver_v(d.view_d(), i, f));
        }
        if has_driver_v(d.view_d(), i) {
            let f = choose|f: nat| reaches_driver_v(d.view_d(), i, f);
            lemma_view_reaches(d, f);
            assert(reaches_driver(d, i, f));
        }
    }
}

/// A description and its image agree on combinational dependency edges.
proof fn lemma_view_dep_edge(d: CircuitDesc)
    ensures
        forall|a: int, b: int| #[trigger] dep_edge(d, a, b) == dep_edge_v(d.view_d(), a, b),
{
    assert forall|a: int, b: int| #[trigger] dep_edge(d, a, b) == dep_edge_v(
        d.view_d(),
        a,
        b,
    ) by {
        if dep_edge(d, a, b) {
            let k = choose|k: int|
                0 <= k < d.deps@.len() && (#[trigger] d.deps@[k]).0 as int == a && d.deps@[k].1
                    as int == b;
            assert(d.view_d().deps[k] == ((d.deps@[k].0 as int), (d.deps@[k].1 as int)));
            assert(dep_edge_v(d.view_d(), a, b));
        }
        if dep_edge_v(d.view_d(), a, b) {
            let k = choose|k: int|
                0 <= k < d.view_d().deps.len() && (#[trigger] d.view_d().deps[k]).0 == a
                    && d.view_d().deps[k].1 == b;
            assert(d.view_d().deps[k] == ((d.deps@[k].0 as int), (d.deps@[k].1 as int)));
            assert(dep_edge(d, a, b));
        }
    }
}

/// A description and its image agree on cycles and chains.
pub proof fn lemma_view_paths(d: CircuitDesc)
    ensures
        forall|p: Seq<int>| #[trigger] is_comb_cycle(d, p) == is_comb_cycle_v(d.view_d(), p),
        forall|p: Seq<int>| #[trigger] is_comb_chain(d, p) == is_comb_chain_v(d.view_d(), p),
        forall|t: int, l: int| #[trigger] chain_to(d, t, l) == chain_to_v(d.view_d(), t, l),
{
    lemma_view_dep_edge(d);
    assert forall|p: Seq<int>| #[trigger] is_comb_cycle(d, p) == is_comb_cycle_v(
        d.view_d(),
        p,
    ) by {
        assert(d.view_d().sigs.len() == d.sigs@.len());
    }
    assert forall|p: Seq<int>| #[trigger] is_comb_chain(d, p) == is_comb_chain_v(
        d.view_d(),
        p,
    ) by {
        assert(d.view_d().sigs.len() == d.sigs@.len());
    }
    assert forall|t: int, l: int| #[trigger] chain_to(d, t, l) == chain_to_v(
        d.view_d(),
        t,
        l,
    ) by {
        if chain_to(d, t, l) {
            let p = choose|p: Seq<int>|
                is_comb_chain(d, p) && p[p.len() - 1] == t && p.len() == l;
            assert(is_comb_chain_v(d.view_d(), p) && p[p.len() - 1] == t && p.len() == l);
        }
        if chain_to_v(d.view_d(), t, l) {
            let p = choose|p: Seq<int>|
                is_comb_chain_v(d.view_d(), p) && p[p.len() - 1] == t && p.len() == l;
            assert(is_comb_chain(d, p) && p[p.len() - 1] == t && p.len() == l);
        }
    }
}

/// Count of unset entries; the propagation loops terminate on it.
spec fn num_false(s: Seq<bool>) -> nat
    decreases s.len(),
{
    if s.len() == 0 {
        0
    } else {
        num_false(s.drop_last()) + (if s.last() {
            0nat
        } else {
            1nat
        })
    }
}

proof fn lemma_num_false_set_true(s: Seq<bool>, i: int)
    requires
        0 <= i < s.len(),
        !s[i],
    ensures
        num_false(s.update(i, true)) + 1 == num_false(s),
    decreases s.len(),
{
    let s2 = s.update(i, true);
    if i == s.len() - 1 {
        assert(s2.drop_last() =~= s.drop_last());
        assert(s2.last());
    } else {
        assert(s2.drop_last() =~= s.drop_last().update(i, true));
        assert(s2.last() == s.last());
        lemma_num_false_set_true(s.drop_last(), i);
    }
}


/// An unset entry means at least one unset entry.
proof fn lemma_num_false_pos(s: Seq<bool>, v: int)
    requires
        0 <= v < s.len(),
        !s[v],
    ensures
        num_false(s) >= 1,
    decreases s.len(),
{
    if v == s.len() - 1 {
    } else {
        lemma_num_false_pos(s.drop_last(), v);
    }
}

/// One more link hop still reaches a driver.
proof fn lemma_reach_step(d: CircuitDesc, i: int, j: int, f: nat)
    requires
        0 <= j < d.sigs@.len(),
        link_adj(d, i, j),
        reaches_driver(d, j, f),
    ensures
        reaches_driver(d, i, f + 1),
{
}

/// In a propagation fixed point, every signal that reaches a driver is
/// marked.
proof fn lemma_stable_complete(d: CircuitDesc, mark: Seq<bool>, i: int, fuel: nat)
    requires
        d.wf(),
        mark.len() == d.sigs@.len(),
        forall|t: int| 0 <= t < d.sigs@.len() && is_driver(d, t) ==> mark[t],
        forall|k: int|
            0 <= k < d.links@.len() ==> (mark[(#[trigger] d.links@[k]).0 as int]
                <==> mark[(d.links@[k]).1 as int]),
        0 <= i < d.sigs@.len(),
        reaches_driver(d, i, fuel),
    ensures
        mark[i],
    decreases fuel,
{
    if is_driver(d, i) {
    } else {
        let j = choose|j: int|
            0 <= j < d.sigs@.len() && #[trigger] link_adj(d, i, j) && reaches_driver(
                d,
                j,
                (fuel - 1) as nat,
            );
        lemma_stable_complete(d, mark, j, (fuel - 1) as nat);
        let k = choose|k: int|
            0 <= k < d.links@.len() && (((#[trigger] d.links@[k]).0 as int == i && d.links@[k].1
                as int == j) || (d.links@[k].0 as int == j && d.links@[k].1 as int == i));
        assert(mark[(d.links@[k]).0 as int] <==> mark[d.links@[k].1 as int]);
    }
}

/// Driver-coverage check: every signal must have at least one driver
/// reachable through ownership or linking.  Fails with `UnconnectedSignal`
/// naming the first signal, in registration order, that has none.  The check
/// reads the description and never changes it, so calling it twice produces
/// the same result.
pub fn connect_all(d: &CircuitDesc) -> (r: Result<(), HdlError>)
    requires
        d.wf(),
    ensures
        match r {
            Ok(_) => forall|i: int| 0 <= i < d.sigs@.len() ==> has_driver(*d, i),
            Err(e) => (e matches HdlError::UnconnectedSignal { path } && (exists|i: int|
                0 <= i < d.sigs@.len() && !has_driver(*d, i) && path@ == d.sigs@[i].path@ && (
                forall|j: int| 0 <= j < i ==> has_driver(*d, j)))),
        },
{
    let n = d.sigs.len();
    let nl = d.links.len();
    let mut mark: Vec<bool> = Vec::new();
    let mut i: usize = 0;
    while i < n
        invariant
            n == d.sigs@.len(),
            i <= n,
            mark@.len() == i,
            forall|t: int| 0 <= t < i ==> mark@[t] == is_driver(*d, t),
        decreases n - i,
    {
        let s = &d.sigs[i];
        let m = match s.dir {
            Direction::In => s.connected,
            _ => true,
        };
        mark.push(m);
        i = i + 1;
    }
    proof {
        assert forall|t: int| 0 <= t < n && mark@[t] implies has_driver(*d, t) by {
            assert(reaches_driver(*d, t, 0));
        }
    }
    loop
        invariant
            d.wf(),
            n == d.sigs@.len(),
            nl == d.links@.len(),
            mark@.len() == n,
            forall|t: int| 0 <= t < n && mark@[t] ==> has_driver(*d, t),
            forall|t: int| 0 <= t < n && is_driver(*d, t) ==> mark@[t],
        ensures
            mark@.len() == n,
            forall|t: int| 0 <= t < n && mark@[t] ==> has_driver(*d, t),
            forall|t: int| 0 <= t < n && is_driver(*d, t) ==> mark@[t],
            forall|k: int|
                0 <= k < d.links@.len() ==> (mark@[(#[trigger] d.links@[k]).0 as int]
                    <==> mark@[d.links@[k].1 as int]),
        decreases num_false(mark@),
    {
        let ghost round_start = mark@;
        let mut changed = false;
        let mut k: usize = 0;
        while k < nl
            invariant
                d.wf(),
                n == d.sigs@.len(),
                nl == d.links@.len(),
                mark@.len() == n,
                k <= nl,
                forall|t: int| 0 <= t < n && mark@[t] ==> has_driver(*d, t),
                forall|t: int| 0 <= t < n && is_driver(*d, t) ==> mark@[t],
                !changed ==> mark@ == round_start,
                changed ==> num_false(mark@) < num_false(round_start),
                !changed ==> forall|kk: int|
                    0 <= kk < k ==> (mark@[(#[trigger] d.links@[kk]).0 as int]
                        <==> mark@[(d.links@[kk]).1 as int]),
            decreases nl - k,
        {
            let (a, b) = d.links[k];
            if mark[a] && !mark[b] {
                proof {
                    lemma_num_false_set_true(mark@, b as int);
                    if !changed {
                        assert(num_false(mark@) == num_false(round_start));
                    }
                    assert(has_driver(*d, a as int));
                    let f = choose|f: nat| reaches_driver(*d, a as int, f);
                    assert(link_adj(*d, b as int, a as int));
                    lemma_reach_step(*d, b as int, a as int, f);
                }
                mark.set(b, true);
                changed = true;
            }
            if mark[b] && !mark[a] {
                proof {
                    lemma_num_false_set_true(mark@, a as int);
                    if !changed {
                        assert(num_false(mark@) == num_false(round_start));
                    }
                    assert(has_driver(*d, b as int));
                    let f = choose|f: nat| reaches_driver(*d, b as int, f);
                    assert(link_adj(*d, a as int, b as int));
                    lemma_reach_step(*d, a as int, b as int, f);
                }
                mark.set(a, true);
                changed = true;
            }
            k = k + 1;
        }
        if !changed {
            break ;
        }
    }
    let mut i: usize = 0;
    while i < n
        invariant
            d.wf(),
            n == d.sigs@.len(),
            mark@.len() == n,
            i <= n,
            forall|t: int| 0 <= t < n && mark@[t] ==> has_driver(*d, t),
            forall|t: int| 0 <= t < n && is_driver(*d, t) ==> mark@[t],
            forall|k: int|
                0 <= k < d.links@.len() ==> (mark@[(#[trigger] d.links@[k]).0 as int]
                    <==> mark@[d.links@[k].1 as int]),
            forall|j: int| 0 <= j < i ==> has_driver(*d, j),
        decreases n - i,
    {
        if !mark[i] {
            proof {
                if has_driver(*d, i as int) {
                    let f = choose|f: nat| reaches_driver(*d, i as int, f);
                    lemma_stable_complete(*d, mark@, i as int, f);
                }
            }
            return Err(HdlError::UnconnectedSignal { path: d.sigs[i].path.clone() });
        }
        i = i + 1;
    }
    Ok(())
}


/// Signal `a` combinationally feeds signal `b`.
pub open spec fn dep_edge(d: CircuitDesc, a: int, b: int) -> bool {
    exists|k: int|
        0 <= k < d.deps@.len() && (#[trigger] d.deps@[k]).0 as int == a && d.deps@[k].1 as int == b
}

/// `p` is a combinational cycle: consecutive dependency edges with the last
/// signal feeding the first, no register in between.
pub open spec fn is_comb_cycle(d: CircuitDesc, p: Seq<int>) -> bool {
    &&& p.len() >= 1
    &&& forall|t: int| 0 <= t < p.len() ==> 0 <= #[trigger] p[t] < d.sigs@.len()
    &&& forall|t: int| 0 <= t < p.len() - 1 ==> dep_edge(d, #[trigger] p[t], p[t + 1])
    &&& dep_edge(d, p[p.len() - 1], p[0])
}

/// Along dependency edges a strictly monotone position map rules every
/// prefix of a path upward.
proof fn lemma_path_monotone(d: CircuitDesc, pos: Map<int, int>, p: Seq<int>, t: int)
    requires
        forall|a: int, b: int|
            0 <= a < d.sigs@.len() && 0 <= b < d.sigs@.len() && #[trigger] dep_edge(d, a, b)
                ==> pos[a] < pos[b],
        is_comb_cycle(d, p),
        0 <= t < p.len(),
    ensures
        pos[p[0]] <= pos[p[t]],
    decreases t,
{
    if t > 0 {
        lemma_path_monotone(d, pos, p, t - 1);
        assert(dep_edge(d, p[t - 1], p[t]));
    }
}

/// A graph admitting a strictly monotone position map has no combinational
/// cycle.
proof fn lemma_monotone_acyclic(d: CircuitDesc, pos: Map<int, int>)
    requires
        forall|a: int, b: int|
            0 <= a < d.sigs@.len() && 0 <= b < d.sigs@.len() && #[trigger] dep_edge(d, a, b)
                ==> pos[a] < pos[b],
    ensures
        forall|p: Seq<int>| !is_comb_cycle(d, p),
{
    assert forall|p: Seq<int>| !is_comb_cycle(d, p) by {
        if is_comb_cycle(d, p) {
            lemma_path_monotone(d, pos, p, p.len() - 1);
            assert(dep_edge(d, p[p.len() - 1], p[0]));
        }
    }
}


/// `p` is a combinational chain: consecutive dependency edges, no register
/// in between.
pub open spec fn is_comb_chain(d: CircuitDesc, p: Seq<int>) -> bool {
    &&& p.len() >= 1
    &&& forall|t: int| 0 <= t < p.len() ==> 0 <= #[trigger] p[t] < d.sigs@.len()
    &&& forall|t: int| 0 <= t < p.len() - 1 ==> dep_edge(d, #[trigger] p[t], p[t + 1])
}

/// Some combinational chain of `l` signals ends at signal `t`.
pub open spec fn chain_to(d: CircuitDesc, t: int, l: int) -> bool {
    exists|p: Seq<int>| is_comb_chain(d, p) && p[p.len() - 1] == t && p.len() == l
}

/// More values than slots: some value repeats.
proof fn lemma_pigeonhole(s: Seq<int>, n: nat)
    requires
        forall|t: int| 0 <= t < s.len() ==> 0 <= #[trigger] s[t] < n,
        s.len() > n,
    ensures
        exists|a: int, b: int| 0 <= a < b < s.len() && s[a] == s[b],
{
    if s.no_duplicates() {
        s.unique_seq_to_set();
        lemma_int_range(0, n as int);
        assert(s.to_set().subset_of(set_int_range(0, n as int))) by {
            assert forall|x: int| s.to_set().contains(x) implies set_int_range(
                0,
                n as int,
            ).contains(x) by {
                let t = choose|t: int| 0 <= t < s.len() && s[t] == x;
                assert(0 <= s[t] < n);
            }
        }
        lemma_len_subset(s.to_set(), set_int_range(0, n as int));
        assert(false);
    } else {
        let (a, b) = choose|a: int, b: int| 0 <= a < b < s.len() && s[a] == s[b];
        assert(0 <= a < b < s.len() && s[a] == s[b]);
    }
}

/// A backward walk along unremoved combinational drivers, of any length.
#[verifier::spinoff_prover]
#[verifier::rlimit(100)]
proof fn build_walk(d: CircuitDesc, removed: Seq<bool>, i: int, steps: nat) -> (w: Seq<int>)
    requires
        d.wf(),
        removed.len() == d.sigs@.len(),
        0 <= i < d.sigs@.len(),
        !removed[i],
        forall|v: int|
            0 <= v < d.sigs@.len() && !(#[trigger] removed[v]) ==> exists|k: int|
                0 <= k < d.deps@.len() && (#[trigger] d.deps@[k]).1 as int == v && !(removed[(
                d.deps@[k]).0 as int]),
    ensures
        w.len() == steps + 1,
        w[0] == i,
        forall|t: int| 0 <= t < w.len() ==> 0 <= #[trigger] w[t] < d.sigs@.len() && !removed[w[t]],
        forall|t: int| 0 <= t < w.len() - 1 ==> dep_edge(d, #[trigger] w[t + 1], w[t]),
    decreases steps,
{
    if steps == 0 {
        seq![i]
    } else {
        let w0 = build_walk(d, removed, i, (steps - 1) as nat);
        let last = w0[steps as int - 1];
        let k = choose|k: int|
            0 <= k < d.deps@.len() && (#[trigger] d.deps@[k]).1 as int == last && !(removed[(
            d.deps@[k]).0 as int]);
        let u = (d.deps@[k]).0 as int;
        assert(dep_edge(d, u, last));
        let w = w0.push(u);
        assert forall|t: int| 0 <= t < w.len() - 1 implies dep_edge(d, #[trigger] w[t + 1], w[t]) by {
            if t < w0.len() - 1 {
                assert(dep_edge(d, w0[t + 1], w0[t]));
            }
        }
        w
    }
}

/// When the peeling sticks, the blocked remainder really closes a
/// combinational cycle.
#[verifier::spinoff_prover]
#[verifier::rlimit(100)]
proof fn lemma_stuck_has_cycle(d: CircuitDesc, removed: Seq<bool>, i: int)
    requires
        d.wf(),
        removed.len() == d.sigs@.len(),
        0 <= i < d.sigs@.len(),
        !removed[i],
        forall|v: int|
            0 <= v < d.sigs@.len() && !(#[trigger] removed[v]) ==> exists|k: int|
                0 <= k < d.deps@.len() && (#[trigger] d.deps@[k]).1 as int == v && !(removed[(
                d.deps@[k]).0 as int]),
    ensures
        exists|p: Seq<int>| is_comb_cycle(d, p),
{
    let n = d.sigs@.len();
    let w = build_walk(d, removed, i, n);
    lemma_pigeonhole(w, n);
    let (a, b) = choose|a: int, b: int| 0 <= a < b < w.len() && w[a] == w[b];
    let p = Seq::new((b - a) as nat, |t: int| w[b - t]);
    assert forall|t: int| 0 <= t < p.len() - 1 implies dep_edge(d, #[trigger] p[t], p[t + 1]) by {
        assert(p[t] == w[b - t]);
        assert(p[t + 1] == w[b - t - 1]);
        assert(dep_edge(d, w[(b - t - 1) + 1], w[b - t - 1]));
    }
    assert(p[p.len() - 1] == w[a + 1]);
    assert(dep_edge(d, w[a + 1], w[a]));
    assert(dep_edge(d, p[p.len() - 1], p[0]));
    assert(is_comb_cycle(d, p));
}

/// The first signal all of whose combinational drivers are already removed,
/// if any is left.
fn find_removable(d: &CircuitDesc, removed: &Vec<bool>) -> (r: Option<usize>)
    requires
        d.wf(),
        removed@.len() == d.sigs@.len(),
    ensures
        match r {
            Some(v) => v < d.sigs@.len() && !removed@[v as int] && forall|k: int|
                0 <= k < d.deps@.len() && (#[trigger] d.deps@[k]).1 as int == v as int
                    ==> removed@[d.deps@[k].0 as int],
            None => forall|v: int|
                0 <= v < d.sigs@.len() && !removed@[v] ==> exists|k: int|
                    0 <= k < d.deps@.len() && (#[trigger] d.deps@[k]).1 as int == v && !(removed@[(d.deps@[k]).0 as int]),
        },
{
    let n = d.sigs.len();
    let ne = d.deps.len();
    let mut v: usize = 0;
    while v < n
        invariant
            d.wf(),
            n == d.sigs@.len(),
            ne == d.deps@.len(),
            removed@.len() == n,
            v <= n,
            forall|t: int|
                0 <= t < v && !removed@[t] ==> exists|k: int|
                    0 <= k < d.deps@.len() && (#[trigger] d.deps@[k]).1 as int == t && !(removed@[(d.deps@[k]).0 as int]),
        decreases n - v,
    {
        if !removed[v] {
            let mut blocked = false;
            let mut k: usize = 0;
            while k < ne
                invariant
                    d.wf(),
                    n == d.sigs@.len(),
                    ne == d.deps@.len(),
                    removed@.len() == n,
                    v < n,
                    k <= ne,
                    blocked ==> exists|kk: int|
                        0 <= kk < d.deps@.len() && (#[trigger] d.deps@[kk]).1 as int == v as int
                            && !removed@[d.deps@[kk].0 as int],
                    !blocked ==> forall|kk: int|
                        0 <= kk < k && (#[trigger] d.deps@[kk]).1 as int == v as int ==> (removed@[(d.deps@[kk]).0 as int]),
                decreases ne - k,
            {
                let (a, b) = d.deps[k];
                if b == v && !removed[a] {
                    blocked = true;
                }
                k = k + 1;
            }
            if !blocked {
                return Some(v);
            }
        }
        v = v + 1;
    }
    None
}

/// A sequence of all-false entries has as many unset entries as elements.
proof fn lemma_num_false_all(s: Seq<bool>)
    requires
        forall|t: int| 0 <= t < s.len() ==> !(#[trigger] s[t]),
    ensures
        num_false(s) == s.len(),
    decreases s.len(),
{
    if s.len() > 0 {
        lemma_num_false_all(s.drop_last());
    }
}

/// The paths of every signal the peeling left behind, with the signal index
/// behind each path.  The peeling stopped because every one of them is still
/// combinationally driven by another signal that could not settle first.
fn collect_blocked(d: &CircuitDesc, removed: &Vec<bool>, i: usize) -> (r: (Vec<String>, Ghost<
    Seq<int>,
>))
    requires
        d.wf(),
        removed@.len() == d.sigs@.len(),
        i < d.sigs@.len(),
        !removed@[i as int],
    ensures
        r.1@.len() == r.0@.len(),
        r.1@.len() > 0,
        forall|t: int|
            0 <= t < r.1@.len() ==> 0 <= #[trigger] r.1@[t] < d.sigs@.len() && r.0@[t]@
                == d.sigs@[r.1@[t]].path@,
{
    let n = d.sigs.len();
    let mut signals: Vec<String> = Vec::new();
    let ghost mut idxs: Seq<int> = Seq::empty();
    let mut j: usize = 0;
    while j < n
        invariant
            d.wf(),
            n == d.sigs@.len(),
            removed@.len() == n,
            j <= n,
            i < n,
            !removed@[i as int],
            i < j ==> idxs.len() > 0,
            idxs.len() == signals@.len(),
            forall|t: int|
                0 <= t < idxs.len() ==> 0 <= #[trigger] idxs[t] < n && signals@[t]@
                    == d.sigs@[idxs[t]].path@,
        decreases n - j,
    {
        if !removed[j] {
            signals.push(d.sigs[j].path.clone());
            proof {
                idxs = idxs.push(j as int);
            }
        }
        j = j + 1;
    }
    (signals, Ghost(idxs))
}

/// Combinational-loop detector.  Peels off signals whose combinational
/// drivers have all settled; when every signal peels, a strictly monotone
/// evaluation order exists and no combinational cycle does.  Otherwise the
/// remaining signals block one another and the check fails with `LogicLoop`
/// naming them.  Register outputs contribute no dependency edges, so a
/// registered element between two signals breaks their cycle.
pub fn check_logic_loops(d: &CircuitDesc) -> (r: Result<(), HdlError>)
    requires
        d.wf(),
    ensures
        match r {
            Ok(_) => forall|p: Seq<int>| !is_comb_cycle(*d, p),
            Err(e) => (e matches HdlError::LogicLoop { signals } && (exists|p: Seq<int>|
                is_comb_cycle(*d, p)) && (exists|idxs: Seq<int>|
                {
                    &&& #[trigger] idxs.len() == signals@.len()
                    &&& idxs.len() > 0
                    &&& (forall|t: int|
                        0 <= t < idxs.len() ==> 0 <= #[trigger] idxs[t] < d.sigs@.len()
                            && signals@[t]@ == d.sigs@[idxs[t]].path@)
                })),
        },
{
    let n = d.sigs.len();
    let mut removed: Vec<bool> = Vec::new();
    let mut i: usize = 0;
    while i < n
        invariant
            i <= n,
            removed@.len() == i,
            forall|t: int| 0 <= t < i ==> !(#[trigger] removed@[t]),
        decreases n - i,
    {
        removed.push(false);
        i = i + 1;
    }
    let ghost mut pos: Map<int, int> = Map::empty();
    let mut count: usize = 0;
    proof {
        lemma_num_false_all(removed@);
    }
    loop
        invariant
            d.wf(),
            n == d.sigs@.len(),
            removed@.len() == n,
            count + num_false(removed@) == n,
            forall|v: int|
                0 <= v < n && #[trigger] removed@[v] ==> pos.dom().contains(v) && 0 <= pos[v]
                    < count,
            forall|a: int, b: int|
                0 <= a < n && 0 <= b < n && removed@[b] && #[trigger] dep_edge(*d, a, b)
                    ==> removed@[a] && pos[a] < pos[b],
        ensures
            removed@.len() == n,
            forall|a: int, b: int|
                0 <= a < n && 0 <= b < n && removed@[b] && #[trigger] dep_edge(*d, a, b)
                    ==> removed@[a] && pos[a] < pos[b],
            forall|v: int|
                0 <= v < n && !(#[trigger] removed@[v]) ==> exists|k: int|
                    0 <= k < d.deps@.len() && (#[trigger] d.deps@[k]).1 as int == v && !(removed@[(
                    d.deps@[k]).0 as int]),
        decreases num_false(removed@),
    {
        match find_removable(d, &removed) {
            Some(v) => {
                proof {
                    lemma_num_false_set_true(removed@, v as int);
                    assert forall|a: int|
                        0 <= a < n && #[trigger] dep_edge(*d, a, v as int) implies removed@[a]
                        && pos[a] < count as int by {
                        let k = choose|k: int|
                            0 <= k < d.deps@.len() && (#[trigger] d.deps@[k]).0 as int == a
                                && d.deps@[k].1 as int == v as int;
                        assert(removed@[(d.deps@[k]).0 as int]);
                    }
                    pos = pos.insert(v as int, count as int);
                }
                removed.set(v, true);
                count = count + 1;
            },
            None => {
                break ;
            },
        }
    }
    let mut i: usize = 0;
    while i < n
        invariant
            d.wf(),
            n == d.sigs@.len(),
            removed@.len() == n,
            i <= n,
            forall|t: int| 0 <= t < i ==> #[trigger] removed@[t],
            forall|a: int, b: int|
                0 <= a < n && 0 <= b < n && removed@[b] && #[trigger] dep_edge(*d, a, b)
                    ==> removed@[a] && pos[a] < pos[b],
            forall|v: int|
                0 <= v < n && !(#[trigger] removed@[v]) ==> exists|k: int|
                    0 <= k < d.deps@.len() && (#[trigger] d.deps@[k]).1 as int == v && !(removed@[(
                    d.deps@[k]).0 as int]),
        decreases n - i,
    {
        if !removed[i] {
            proof {
                lemma_stuck_has_cycle(*d, removed@, i as int);
            }
            let (signals, idxs) = collect_blocked(d, &removed, i);
            return Err(HdlError::LogicLoop { signals });
        }
        i = i + 1;
    }
    proof {
        assert forall|a: int, b: int|
            0 <= a < d.sigs@.len() && 0 <= b < d.sigs@.len() && #[trigger] dep_edge(*d, a, b)
            implies pos[a] < pos[b] by {
            assert(removed@[b]);
        }
        lemma_monotone_acyclic(*d, pos);
    }
    Ok(())
}


/// The per-signal combinational depths and the worst-case depth.
#[derive(Clone, Debug)]
pub struct TimingReport {
    /// Longest combinational distance, in dependency hops, behind each
    /// signal.
    pub depths: Vec<usize>,
    /// The critical combinational depth of the whole graph.
    pub max_depth: usize,
}

/// Timing analyzer: computes, per signal, the longest chain of combinational
/// dependency hops behind it (register outputs and plain inputs start at
/// zero, since a register breaks the chain), and the worst such depth.
/// Fails with `TimingViolation` when that depth exceeds `bound`, and with
/// `LogicLoop` when a combinational cycle makes the depth unbounded.
pub fn check_timing(d: &CircuitDesc, bound: usize) -> (r: Result<TimingReport, HdlError>)
    requires
        d.wf(),
        d.sigs@.len() < usize::MAX,
    ensures
        match r {
            Ok(rep) => {
                &&& rep.depths@.len() == d.sigs@.len()
                &&& rep.max_depth <= bound
                &&& (forall|k: int|
                    0 <= k < d.deps@.len() ==> rep.depths@[(#[trigger] d.deps@[k]).1 as int]
                        >= rep.depths@[(d.deps@[k]).0 as int] + 1)
                &&& (forall|t: int|
                    0 <= t < rep.depths@.len() ==> #[trigger] rep.depths@[t] <= rep.max_depth)
                &&& (rep.depths@.len() > 0 ==> exists|t: int|
                    0 <= t < rep.depths@.len() && #[trigger] rep.depths@[t] == rep.max_depth)
                &&& (forall|t: int|
                    0 <= t < rep.depths@.len() ==> chain_to(*d, t, #[trigger] rep.depths@[t]
                        + 1))
            },
            Err(e) => (e is LogicLoop && (exists|p: Seq<int>| is_comb_cycle(*d, p))) || (e matches
                HdlError::TimingViolation { depth, bound: b2 } && b2 == bound && depth > bound && (
            exists|p: Seq<int>| is_comb_chain(*d, p) && p.len() == depth + 1)),
        },
{
    let n = d.sigs.len();
    let ne = d.deps.len();
    let mut removed: Vec<bool> = Vec::new();
    let mut depths: Vec<usize> = Vec::new();
    let mut i: usize = 0;
    while i < n
        invariant
            i <= n,
            removed@.len() == i,
            depths@.len() == i,
            forall|t: int| 0 <= t < i ==> !(#[trigger] removed@[t]),
        decreases n - i,
    {
        removed.push(false);
        depths.push(0);
        i = i + 1;
    }
    let mut count: usize = 0;
    proof {
        lemma_num_false_all(removed@);
    }
    loop
        invariant
            d.wf(),
            n == d.sigs@.len(),
            n < usize::MAX,
            ne == d.deps@.len(),
            removed@.len() == n,
            depths@.len() == n,
            count + num_false(removed@) == n,
            forall|t: int| 0 <= t < n && #[trigger] removed@[t] ==> depths@[t] < count,
            forall|k: int|
                0 <= k < ne && removed@[(#[trigger] d.deps@[k]).1 as int] ==> (removed@[(
                d.deps@[k]).0 as int] && depths@[(d.deps@[k]).1 as int] >= depths@[(d.deps@[
                k]).0 as int] + 1),
            forall|t: int|
                0 <= t < n && #[trigger] removed@[t] ==> chain_to(*d, t, depths@[t] + 1),
        ensures
            removed@.len() == n,
            depths@.len() == n,
            forall|k: int|
                0 <= k < ne && removed@[(#[trigger] d.deps@[k]).1 as int] ==> depths@[(
                d.deps@[k]).1 as int] >= depths@[(d.deps@[k]).0 as int] + 1,
            forall|v: int|
                0 <= v < n && !(#[trigger] removed@[v]) ==> exists|k: int|
                    0 <= k < d.deps@.len() && (#[trigger] d.deps@[k]).1 as int == v && !(removed@[(
                    d.deps@[k]).0 as int]),
            forall|t: int|
                0 <= t < n && #[trigger] removed@[t] ==> chain_to(*d, t, depths@[t] + 1),
        decreases num_false(removed@),
    {
        match find_removable(d, &removed) {
            Some(v) => {
                proof {
                    lemma_num_false_pos(removed@, v as int);
                }
                let mut dv: usize = 0;
                let ghost mut arg: int = 0;
                let mut k: usize = 0;
                while k < ne
                    invariant
                        d.wf(),
                        n == d.sigs@.len(),
                        ne == d.deps@.len(),
                        removed@.len() == n,
                        depths@.len() == n,
                        v < n,
                        k <= ne,
                        count < n,
                        dv <= count,
                        forall|t: int| 0 <= t < n && #[trigger] removed@[t] ==> depths@[t] < count,
                        forall|kk: int|
                            0 <= kk < ne && (#[trigger] d.deps@[kk]).1 as int == v as int
                                ==> removed@[(d.deps@[kk]).0 as int],
                        forall|kk: int|
                            0 <= kk < k && (#[trigger] d.deps@[kk]).1 as int == v as int ==> dv
                                >= depths@[(d.deps@[kk]).0 as int] + 1,
                        dv > 0 ==> 0 <= arg < n && removed@[arg] && dep_edge(*d, arg, v as int)
                            && depths@[arg] + 1 == dv,
                    decreases ne - k,
                {
                    let (a, b) = d.deps[k];
                    if b == v {
                        let cand = depths[a] + 1;
                        if cand > dv {
                            dv = cand;
                            proof {
                                arg = a as int;
                                assert((#[trigger] d.deps@[k as int]).0 as int == a as int
                                    && d.deps@[k as int].1 as int == v as int);
                                assert(dep_edge(*d, a as int, v as int));
                            }
                        }
                    }
                    k = k + 1;
                }
                let ghost pre_removed = removed@;
                let ghost pre_depths = depths@;
                depths.set(v, dv);
                proof {
                    lemma_num_false_set_true(removed@, v as int);
                }
                removed.set(v, true);
                count = count + 1;
                proof {
                    assert forall|t: int|
                        0 <= t < n && #[trigger] removed@[t] implies chain_to(
                        *d,
                        t,
                        depths@[t] + 1,
                    ) by {
                        if t == v as int {
                            if dv == 0 {
                                let p = seq![v as int];
                                assert(is_comb_chain(*d, p));
                                assert(p[p.len() - 1] == t && p.len() == depths@[t] + 1);
                            } else {
                                assert(pre_removed[arg] && dep_edge(*d, arg, v as int)
                                    && pre_depths[arg] + 1 == dv);
                                assert(chain_to(*d, arg, pre_depths[arg] + 1));
                                let pu = choose|p: Seq<int>|
                                    is_comb_chain(*d, p) && p[p.len() - 1] == arg && p.len()
                                        == pre_depths[arg] + 1;
                                let p = pu.push(v as int);
                                assert forall|u: int|
                                    0 <= u < p.len() - 1 implies dep_edge(
                                    *d,
                                    #[trigger] p[u],
                                    p[u + 1],
                                ) by {
                                    if u < pu.len() - 1 {
                                        assert(dep_edge(*d, pu[u], pu[u + 1]));
                                    } else {
                                        assert(p[u] == arg && p[u + 1] == v as int);
                                    }
                                }
                                assert(is_comb_chain(*d, p));
                                assert(p[p.len() - 1] == t && p.len() == depths@[t] + 1);
                            }
                        } else {
                            assert(pre_removed[t]);
                            assert(chain_to(*d, t, pre_depths[t] + 1));
                            assert(depths@[t] == pre_depths[t]);
                        }
                    }
                }
            },
            None => {
                break ;
            },
        }
    }
    let mut i: usize = 0;
    while i < n
        invariant
            d.wf(),
            n == d.sigs@.len(),
            ne == d.deps@.len(),
            removed@.len() == n,
            depths@.len() == n,
            i <= n,
            forall|t: int| 0 <= t < i ==> #[trigger] removed@[t],
            forall|v: int|
                0 <= v < n && !(#[trigger] removed@[v]) ==> exists|k: int|
                    0 <= k < d.deps@.len() && (#[trigger] d.deps@[k]).1 as int == v && !(removed@[(
                    d.deps@[k]).0 as int]),
            forall|t: int|
                0 <= t < n && #[trigger] removed@[t] ==> chain_to(*d, t, depths@[t] + 1),
        decreases n - i,
    {
        if !removed[i] {
            proof {
                lemma_stuck_has_cycle(*d, removed@, i as int);
            }
            let (signals, _idxs) = collect_blocked(d, &removed, i);
            return Err(HdlError::LogicLoop { signals });
        }
        i = i + 1;
    }
    let mut max_depth: usize = 0;
    let mut arg_max: usize = 0;
    let mut i: usize = 0;
    while i < n
        invariant
            d.wf(),
            n == d.sigs@.len(),
            removed@.len() == n,
            depths@.len() == n,
            i <= n,
            forall|t: int| 0 <= t < n ==> #[trigger] removed@[t],
            forall|t: int| 0 <= t < i ==> #[trigger] depths@[t] <= max_depth,
            i > 0 ==> (arg_max < n && depths@[arg_max as int] == max_depth),
            i == 0 ==> (max_depth == 0 && arg_max == 0),
            forall|t: int|
                0 <= t < n && #[trigger] removed@[t] ==> chain_to(*d, t, depths@[t] + 1),
        decreases n - i,
    {
        if depths[i] > max_depth {
            max_depth = depths[i];
            arg_max = i;
        }
        i = i + 1;
    }
    if max_depth > bound {
        proof {
            assert(n > 0);
            assert(removed@[arg_max as int]);
            assert(chain_to(*d, arg_max as int, (depths@[arg_max as int]) + 1));
            let p = choose|p: Seq<int>|
                is_comb_chain(*d, p) && p[p.len() - 1] == arg_max as int && p.len() == (depths@[
                arg_max as int]) + 1;
            assert(is_comb_chain(*d, p) && p.len() == max_depth + 1);
        }
        return Err(HdlError::TimingViolation { depth: max_depth, bound });
    }
    proof {
        assert forall|k: int|
            0 <= k < d.deps@.len() implies depths@[(#[trigger] d.deps@[k]).1 as int] >= depths@[(
        d.deps@[k]).0 as int] + 1 by {
            assert(removed@[(d.deps@[k]).1 as int]);
        }
        if n > 0 {
            assert(depths@[arg_max as int] == max_depth);
        }
        assert forall|t: int| 0 <= t < n implies chain_to(*d, t, #[trigger] depths@[t] + 1) by {
            assert(removed@[t]);
        }
    }
    Ok(TimingReport { depths, max_depth })
}


/// Driver-coverage check over a whole block tree: the result is pinned by
/// the block's described graph, so an input without a reachable driver is
/// reported by path, and a second call returns the same result.
pub fn check_connected<B: crate::block::Block>(b: &B) -> (r: Result<(), HdlError>)
    ensures
        ({
            let dv = B::describe_v(*b, "top"@, CircuitDescV::empty());
            match r {
                Ok(_) => forall|i: int| 0 <= i < dv.sigs.len() ==> has_driver_v(dv, i),
                Err(e) => (e matches HdlError::UnconnectedSignal { path } && (exists|i: int|
                    0 <= i < dv.sigs.len() && !has_driver_v(dv, i) && path@ == dv.sigs[i].path
                        && (forall|j: int| 0 <= j < i ==> has_driver_v(dv, j)))),
            }
        }),
{
    let mut d = crate::graph::CircuitDesc::new();
    b.describe("top", &mut d);
    let r = connect_all(&d);
    proof {
        lemma_view_has_driver(d);
        let dv = B::describe_v(*b, "top"@, CircuitDescV::empty());
        assert(d.view_d() == dv);
        if r is Ok {
            {
                assert forall|i: int|
                    0 <= i < dv.sigs.len() implies has_driver_v(dv, i) by {
                    assert(has_driver(d, i));
                }
            }
        } else {
            let e = r->Err_0;
            {
                let i = choose|i: int|
                    0 <= i < d.sigs@.len() && !has_driver(d, i) && (e matches
                        HdlError::UnconnectedSignal { path } && path@ == d.sigs@[i].path@)
                        && (forall|j: int|
                        0 <= j < i ==> has_driver(d, j));
                assert(!has_driver_v(dv, i));
                assert(dv.sigs[i].path == d.sigs@[i].path@);
                assert forall|j: int| 0 <= j < i implies has_driver_v(
                    dv,
                    j,
                ) by {
                    assert(has_driver(d, j));
                }
            }
        }
    }
    r
}

/// Logic-loop check over a whole block tree: success proves the described
/// graph has no combinational cycle; failure names blocked signals of a
/// graph that provably has one.
pub fn check_logic_loops_block<B: crate::block::Block>(b: &B) -> (r: Result<(), HdlError>)
    ensures
        ({
            let dv = B::describe_v(*b, "top"@, CircuitDescV::empty());
            match r {
                Ok(_) => forall|p: Seq<int>| !is_comb_cycle_v(dv, p),
                Err(e) => e is LogicLoop && (exists|p: Seq<int>| is_comb_cycle_v(dv, p)),
            }
        }),
{
    let mut d = crate::graph::CircuitDesc::new();
    b.describe("top", &mut d);
    let r = check_logic_loops(&d);
    proof {
        lemma_view_paths(d);
        if r is Ok {
            assert forall|p: Seq<int>| !is_comb_cycle_v(
                B::describe_v(*b, "top"@, CircuitDescV::empty()),
                p,
            ) by {
                assert(!is_comb_cycle(d, p));
            }
        }
    }
    r
}

/// Timing check over a whole block tree: the depths satisfy every
/// combinational edge of the described graph, the critical depth is
/// attained, and a violation carries a real chain that exceeds the bound.
pub fn check_timing_block<B: crate::block::Block>(b: &B, bound: usize) -> (r: Result<
    TimingReport,
    HdlError,
>)
    ensures
        ({
            let dv = B::describe_v(*b, "top"@, CircuitDescV::empty());
            dv.sigs.len() < usize::MAX ==> match r {
                Ok(rep) => {
                    &&& rep.depths@.len() == dv.sigs.len()
                    &&& rep.max_depth <= bound
                    &&& (forall|k: int|
                        0 <= k < dv.deps.len() ==> rep.depths@[(#[trigger] dv.deps[k]).1]
                            >= rep.depths@[(dv.deps[k]).0] + 1)
                    &&& (forall|t: int|
                        0 <= t < rep.depths@.len() ==> #[trigger] rep.depths@[t]
                            <= rep.max_depth)
                },
                Err(e) => (e is LogicLoop && (exists|p: Seq<int>| is_comb_cycle_v(dv, p))) || (
                e matches HdlError::TimingViolation { depth, bound: b2 } && b2 == bound && depth
                    > bound && (exists|p: Seq<int>| is_comb_chain_v(dv, p) && p.len() == depth
                    + 1)),
            }
        }),
{
    let mut d = crate::graph::CircuitDesc::new();
    b.describe("top", &mut d);
    if d.sigs.len() == usize::MAX {
        return Err(HdlError::TimingViolation { depth: usize::MAX, bound });
    }
    let r = check_timing(&d, bound);
    proof {
        lemma_view_paths(d);
        lemma_view_dep_edge_pairs(d);
    }
    r
}

/// The image's dependency pairs are the description's, index for index.
proof fn lemma_view_dep_edge_pairs(d: CircuitDesc)
    ensures
        d.view_d().deps.len() == d.deps@.len(),
        forall|k: int|
            0 <= k < d.deps@.len() ==> (#[trigger] d.view_d().deps[k]).0 == d.deps@[k].0 as int
                && d.view_d().deps[k].1 == d.deps@[k].1 as int,
{
}

} // verus!
