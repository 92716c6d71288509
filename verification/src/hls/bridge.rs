//! The bus bridge: connects to the controller on one side and exposes a row
//! of device ports on the other.  Data is routed to the port selected by the
//! latched address; the reset is resynchronized on the way through, so
//! devices come out of reset aligned with the bridge's clock.

use vstd::prelude::*;
use vstd::arithmetic::power2::pow2;

use crate::block::Block;
use crate::graph::{CircuitDesc, CircuitDescV};
use crate::hls::bus::{SoCBusResponder, SoCPortController};
use crate::signal::{Direction, Signal};
use crate::widgets::dff::Dff;
use crate::widgets::reset_sync::ResetSynchronizer;

verus! {

/// The mathematical value of a bridge: its signals plus the row of port
/// controllers as a sequence.
#[verifier::ext_equal]
pub struct BridgeV<const D: usize, const A: usize> {
    pub upstream: SoCBusResponder<D, A>,
    pub nodes: Seq<SoCPortController<D>>,
    pub clock_out: Signal<1>,
    pub reset_out: Signal<1>,
    pub address_latch: Dff<A>,
    pub reset_sync: ResetSynchronizer,
}

/// What routing computes for port `i`: the selected port sees the
/// controller's word and strobe, every other port sees zeroes; all ports
/// share the clock and the synchronized reset.
pub open spec fn route_node<const D: usize, const A: usize>(
    pre: BridgeV<D, A>,
    i: int,
) -> SoCPortController<D> {
    let node = pre.nodes[i];
    let sel = pre.address_latch.q.current as int == i;
    SoCPortController {
        from_controller: node.from_controller.with_next(
            if sel {
                pre.upstream.from_controller.current
            } else {
                0
            },
        ),
        select: node.select.with_next(if sel { 1 } else { 0 }),
        strobe: node.strobe.with_next(
            if sel {
                pre.upstream.strobe.current
            } else {
                0
            },
        ),
        clock: node.clock.with_next(pre.upstream.clock.current),
        reset: node.reset.with_next(pre.reset_out.current),
        ..node
    }
}

/// A bus bridge with `N` device ports behind a `D`-bit, `A`-bit-address
/// upstream bus.
#[derive(Clone, Debug)]
pub struct Bridge<const D: usize, const A: usize, const N: usize> {
    /// The upstream bus this bridge responds on.
    pub upstream: SoCBusResponder<D, A>,
    /// The device ports, routed by latched address.
    pub nodes: Vec<SoCPortController<D>>,
    /// The clock passed through to the devices.
    pub clock_out: Signal<1>,
    /// The resynchronized reset passed to the devices.
    pub reset_out: Signal<1>,
    /// Latches the routed address on an address strobe.
    pub address_latch: Dff<A>,
    /// Conditions the upstream reset.
    pub reset_sync: ResetSynchronizer,
    /// The registered port names, in port order.
    pub port_names: Vec<String>,
}

impl<const D: usize, const A: usize, const N: usize> Bridge<D, A, N> {
    /// The registered port names, in port order.
    pub open spec fn spec_ports(self) -> Seq<String> {
        self.port_names@
    }

    /// A bridge whose ports carry the given names, in the given order, with
    /// every signal, bus and register default-initialized.
    pub fn new(names: [&str; N]) -> (r: Self)
        requires
            1 <= D <= 64,
            1 <= A <= 64,
            N <= pow2(A as nat),
        ensures
            r.wf(),
            r.spec_ports().len() == N,
            forall|i: int| 0 <= i < N ==> #[trigger] r.spec_ports()[i]@ == names@[i]@,
            r.nodes@.len() == N,
            forall|i: int|
                0 <= i < N ==> #[trigger] r.nodes@[i] == SoCPortController::<D>::initial(),
            r.upstream == SoCBusResponder::<D, A>::initial(),
            r.clock_out == Signal::<1>::zeroed(Direction::Out),
            r.reset_out == Signal::<1>::zeroed(Direction::Out),
            r.address_latch == Dff::<A>::initial(),
            r.reset_sync == ResetSynchronizer::initial(),
    {
        let mut nodes: Vec<SoCPortController<D>> = Vec::new();
        let mut port_names: Vec<String> = Vec::new();
        let mut i: usize = 0;
        while i < N
            invariant
                1 <= D <= 64,
                i <= N,
                nodes@.len() == i,
                port_names@.len() == i,
                forall|k: int|
                    0 <= k < i ==> #[trigger] nodes@[k] == SoCPortController::<D>::initial(),
                forall|k: int| 0 <= k < i ==> #[trigger] port_names@[k]@ == names@[k]@,
            decreases N - i,
        {
            nodes.push(SoCPortController::new());
            port_names.push(String::from_str(names[i]));
            i = i + 1;
        }
        Bridge {
            upstream: SoCBusResponder::new(),
            nodes,
            clock_out: Signal::new(Direction::Out),
            reset_out: Signal::new(Direction::Out),
            address_latch: Dff::new(),
            reset_sync: ResetSynchronizer::default(),
            port_names,
        }
    }

    /// The registered port names.
    pub fn ports(&self) -> (r: Vec<String>)
        ensures
            r@ == self.spec_ports(),
    {
        self.port_names.clone()
    }
}

impl<const D: usize, const A: usize, const N: usize> Block for Bridge<D, A, N> {
    type V = BridgeV<D, A>;

    open spec fn view_b(self) -> BridgeV<D, A> {
        BridgeV {
            upstream: self.upstream,
            nodes: self.nodes@,
            clock_out: self.clock_out,
            reset_out: self.reset_out,
            address_latch: self.address_latch,
            reset_sync: self.reset_sync,
        }
    }

    open spec fn wf(self) -> bool {
        &&& self.upstream.wf()
        &&& self.nodes@.len() == N
        &&& (forall|i: int| 0 <= i < N ==> (#[trigger] self.nodes@[i]).wf())
        &&& self.clock_out.wf()
        &&& self.reset_out.wf()
        &&& self.address_latch.wf()
        &&& self.reset_sync.wf()
    }

    open spec fn step(pre: BridgeV<D, A>) -> BridgeV<D, A> {
        let sel = pre.address_latch.q.current as int;
        let sel_ok = 0 <= sel < pre.nodes.len();
        let strobe_addr = pre.upstream.address_strobe.current == 1;
        BridgeV {
            upstream: SoCBusResponder {
                ready: pre.upstream.ready.with_next(
                    if strobe_addr {
                        0
                    } else if sel_ok && pre.nodes[sel].ready.current == 1 {
                        1
                    } else {
                        0
                    },
                ),
                to_controller: pre.upstream.to_controller.with_next(
                    if sel_ok {
                        pre.nodes[sel].to_controller.current
                    } else {
                        0
                    },
                ),
                ..pre.upstream
            },
            nodes: Seq::new(pre.nodes.len(), |i: int| route_node(pre, i)),
            clock_out: pre.clock_out.with_next(pre.upstream.clock.current),
            reset_out: pre.reset_out.with_next(pre.reset_sync.reset_out.current),
            address_latch: <Dff<A> as Block>::step(
                Dff {
                    clk: pre.address_latch.clk.with_next(pre.upstream.clock.current),
                    d: pre.address_latch.d.with_next(
                        if strobe_addr {
                            pre.upstream.address.current
                        } else {
                            pre.address_latch.q.current
                        },
                    ),
                    ..pre.address_latch
                },
            ),
            reset_sync: ResetSynchronizer::step(
                ResetSynchronizer {
                    clock: pre.reset_sync.clock.with_next(pre.upstream.clock.current),
                    reset_in: pre.reset_sync.reset_in.with_next(pre.upstream.reset.current),
                    ..pre.reset_sync
                },
            ),
        }
    }

    open spec fn latched(pre: BridgeV<D, A>) -> BridgeV<D, A> {
        BridgeV {
            upstream: SoCBusResponder::latched(pre.upstream),
            nodes: Seq::new(pre.nodes.len(), |i: int| SoCPortController::latched(pre.nodes[i])),
            clock_out: pre.clock_out.latched(),
            reset_out: pre.reset_out.latched(),
            address_latch: <Dff<A> as Block>::latched(pre.address_latch),
            reset_sync: ResetSynchronizer::latched(pre.reset_sync),
        }
    }

    open spec fn snap(s: BridgeV<D, A>) -> Seq<u64> {
        SoCBusResponder::snap(s.upstream) + seq![s.clock_out.current, s.reset_out.current] + <Dff<
            A,
        > as Block>::snap(s.address_latch) + ResetSynchronizer::snap(s.reset_sync) + nodes_snap(
            s.nodes,
            0,
        )
    }

    open spec fn with_clock(pre: BridgeV<D, A>, level: bool) -> BridgeV<D, A> {
        BridgeV {
            upstream: SoCBusResponder {
                clock: pre.upstream.clock.with_next(if level { 1 } else { 0 }),
                ..pre.upstream
            },
            ..pre
        }
    }

    open spec fn describe_v(s: Self, path: Seq<char>, d: CircuitDescV) -> CircuitDescV {
        let base = d.sigs.len() as int;
        let d1 = s.upstream.describe_v(path, d);
        let d2 = d1.with_sig(path + "."@ + "clock_out"@, 1, s.clock_out.dir,
            s.clock_out.connected, true)
            .with_sig(path + "."@ + "reset_out"@, 1, s.reset_out.dir, s.reset_out.connected,
            true);
        let d3 = <Dff<A> as Block>::describe_v(s.address_latch, path + "."@ + "address_latch"@,
            d2);
        let d4 = <ResetSynchronizer as Block>::describe_v(s.reset_sync,
            path + "."@ + "reset_sync"@, d3);
        let d5 = d4.with_link(base, base + 10).with_link(base + 8, base + 11).with_link(
            base + 1,
            base + 14,
        ).with_link(base, base + 15);
        nodes_describe_v(s.nodes@, path, d5, 0)
    }

    #[verifier::spinoff_prover]
    #[verifier::rlimit(100)]
    fn update(&mut self) {
        let ghost pre = self.view_b();
        let c = self.upstream.clock.val();
        self.reset_sync.clock.set_next(c);
        let v = self.upstream.reset.val();
        self.reset_sync.reset_in.set_next(v);
        self.clock_out.set_next(c);
        let v = self.reset_sync.reset_out.val();
        self.reset_out.set_next(v);
        let strobe_addr = self.upstream.address_strobe.val() == 1;
        let sel = self.address_latch.q.val();
        let sel_ok = sel < N as u64;
        let ready_v: u64 = if strobe_addr {
            0
        } else if sel_ok && self.nodes[sel as usize].ready.val() == 1 {
            1
        } else {
            0
        };
        self.upstream.ready.set_next(ready_v);
        let to_v: u64 = if sel_ok {
            self.nodes[sel as usize].to_controller.val()
        } else {
            0
        };
        self.upstream.to_controller.set_next(to_v);
        let mut new_nodes: Vec<SoCPortController<D>> = Vec::new();
        let mut i: usize = 0;
        while i < N
            invariant
                pre.nodes.len() == N,
                self.nodes@ == pre.nodes,
                self.upstream.from_controller == pre.upstream.from_controller,
                self.upstream.strobe == pre.upstream.strobe,
                self.upstream.clock == pre.upstream.clock,
                self.reset_out.current == pre.reset_out.current,
                self.address_latch.q == pre.address_latch.q,
                forall|k: int| 0 <= k < N ==> (#[trigger] pre.nodes[k]).wf(),
                1 <= D <= 64,
                i <= N,
                new_nodes@.len() == i,
                forall|k: int| 0 <= k < i ==> #[trigger] new_nodes@[k] == route_node(pre, k),
                forall|k: int| 0 <= k < i ==> (#[trigger] new_nodes@[k]).wf(),
            decreases N - i,
        {
            let mut node = self.nodes[i];
            let sel_here = self.address_latch.q.val() == i as u64;
            let fv: u64 = if sel_here {
                self.upstream.from_controller.val()
            } else {
                0
            };
            node.from_controller.set_next(fv);
            node.select.set_next(if sel_here { 1 } else { 0 });
            let sv: u64 = if sel_here {
                self.upstream.strobe.val()
            } else {
                0
            };
            node.strobe.set_next(sv);
            let cv = self.upstream.clock.val();
            node.clock.set_next(cv);
            let rv = self.reset_out.val();
            node.reset.set_next(rv);
            proof {
                assert(node == route_node(pre, i as int));
            }
            new_nodes.push(node);
            i = i + 1;
        }
        self.nodes = new_nodes;
        self.address_latch.clk.set_next(c);
        let an = if strobe_addr {
            self.upstream.address.val()
        } else {
            self.address_latch.q.val()
        };
        self.address_latch.d.set_next(an);
        self.reset_sync.update();
        self.address_latch.update();
        proof {
            assert(self.view_b().nodes =~= Self::step(pre).nodes);
            assert(self.view_b() =~= Self::step(pre));
        }
    }

    fn commit(&mut self) {
        let ghost pre = self.view_b();
        self.upstream.commit_signals();
        let mut new_nodes: Vec<SoCPortController<D>> = Vec::new();
        let mut i: usize = 0;
        while i < N
            invariant
                pre.nodes.len() == N,
                self.nodes@ == pre.nodes,
                forall|k: int| 0 <= k < N ==> (#[trigger] pre.nodes[k]).wf(),
                i <= N,
                new_nodes@.len() == i,
                forall|k: int|
                    0 <= k < i ==> #[trigger] new_nodes@[k] == SoCPortController::latched(
                        pre.nodes[k],
                    ),
                forall|k: int| 0 <= k < i ==> (#[trigger] new_nodes@[k]).wf(),
            decreases N - i,
        {
            let mut node = self.nodes[i];
            node.commit_signals();
            new_nodes.push(node);
            i = i + 1;
        }
        self.nodes = new_nodes;
        self.clock_out.commit();
        self.reset_out.commit();
        self.address_latch.commit();
        self.reset_sync.commit();
        proof {
            assert(self.view_b().nodes =~= Self::latched(pre).nodes);
            assert(self.view_b() =~= Self::latched(pre));
        }
    }

    fn settled(&self) -> (r: bool) {
        let mut r = self.upstream.settled_signals() && self.clock_out.is_settled()
            && self.reset_out.is_settled() && self.address_latch.settled()
            && self.reset_sync.settled();
        let ghost base_ok = (SoCBusResponder::latched(self.upstream) == self.upstream
            && self.clock_out.latched() == self.clock_out && self.reset_out.latched()
            == self.reset_out && <Dff<A> as Block>::latched(self.address_latch)
            == self.address_latch && ResetSynchronizer::latched(self.reset_sync)
            == self.reset_sync);
        let mut i: usize = 0;
        while i < N
            invariant
                self.wf(),
                i <= N,
                base_ok == (SoCBusResponder::latched(self.upstream) == self.upstream
                    && self.clock_out.latched() == self.clock_out && self.reset_out.latched()
                    == self.reset_out && <Dff<A> as Block>::latched(self.address_latch)
                    == self.address_latch && ResetSynchronizer::latched(self.reset_sync)
                    == self.reset_sync),
                r == (base_ok && (forall|k: int|
                    0 <= k < i ==> SoCPortController::latched(#[trigger] self.nodes@[k])
                        == self.nodes@[k])),
            decreases N - i,
        {
            let ns = self.nodes[i].settled_signals();
            r = r && ns;
            i = i + 1;
        }
        proof {
            if r {
                assert(Self::latched(self.view_b()).nodes =~= self.view_b().nodes);
                assert(Self::latched(self.view_b()) =~= self.view_b());
            } else {
                if Self::latched(self.view_b()) == self.view_b() {
                    assert(forall|k: int|
                        0 <= k < N ==> SoCPortController::latched(#[trigger] self.nodes@[k])
                            == Self::latched(self.view_b()).nodes[k]);
                    assert(false);
                }
            }
        }
        r
    }

    fn set_clock(&mut self, level: bool) {
        self.upstream.clock.set_bool(level);
    }

    fn snapshot_into(&self, out: &mut Vec<u64>) {
        self.upstream.snapshot_into(out);
        out.push(self.clock_out.current);
        out.push(self.reset_out.current);
        self.address_latch.snapshot_into(out);
        self.reset_sync.snapshot_into(out);
        let nn = self.nodes.len();
        let mut i: usize = 0;
        while i < nn
            invariant
                nn == self.nodes@.len(),
                i <= nn,
                out@ + nodes_snap(self.nodes@, i as int) =~= old(out)@ + Self::snap(
                    self.view_b(),
                ),
            decreases nn - i,
        {
            let ghost before = out@;
            self.nodes[i].snapshot_into(out);
            proof {
                assert(nodes_snap(self.nodes@, i as int) =~= SoCPortController::snap(
                    self.nodes@[i as int],
                ) + nodes_snap(self.nodes@, i as int + 1));
                assert(out@ + nodes_snap(self.nodes@, i as int + 1) =~= before + nodes_snap(
                    self.nodes@,
                    i as int,
                ));
            }
            i = i + 1;
        }
        proof {
            assert(out@ =~= old(out)@ + Self::snap(self.view_b()));
        }
    }

    fn describe(&self, path: &str, d: &mut CircuitDesc) {
        let ubase = self.upstream.describe_into(path, d);
        let i_co = d.add_signal(path, "clock_out", &self.clock_out, true);
        let _ = d.add_signal(path, "reset_out", &self.reset_out, true);
        let sub = crate::graph::sub_path(path, "address_latch");
        let al = d.sigs.len();
        let ghost v0 = d.view_d();
        self.address_latch.describe(sub.as_str(), d);
        let ghost sub0 = sub@;
        let sub = crate::graph::sub_path(path, "reset_sync");
        let rs = d.sigs.len();
        let ghost v1 = d.view_d();
        self.reset_sync.describe(sub.as_str(), d);
        let n = d.sigs.len();
        proof {
            assert(v1 == <Dff<A> as Block>::describe_v(self.address_latch, sub0, v0));
            assert(v1.sigs.len() == v0.sigs.len() + 4);
            assert(d.view_d() == <ResetSynchronizer as Block>::describe_v(self.reset_sync, sub@,
                v1));
            assert(d.view_d().sigs.len() == v1.sigs.len() + 11);
            assert(al == ubase + 10);
            assert(rs == ubase + 14);
            assert(n == ubase + 25);
        }
        d.add_link(ubase, al);
        d.add_link(i_co, al + 1);
        d.add_link(ubase + 1, rs);
        d.add_link(ubase, rs + 1);
        let ghost dv0 = d.view_d();
        proof {
            assert(dv0 =~= {
                let base = old(d).view_d().sigs.len() as int;
                let d1 = self.upstream.describe_v(path@, old(d).view_d());
                let d2 = d1.with_sig(path@ + "."@ + "clock_out"@, 1, self.clock_out.dir,
                    self.clock_out.connected, true).with_sig(path@ + "."@ + "reset_out"@, 1,
                    self.reset_out.dir, self.reset_out.connected, true);
                let d3 = <Dff<A> as Block>::describe_v(self.address_latch,
                    path@ + "."@ + "address_latch"@, d2);
                let d4 = <ResetSynchronizer as Block>::describe_v(self.reset_sync,
                    path@ + "."@ + "reset_sync"@, d3);
                d4.with_link(base, base + 10).with_link(base + 8, base + 11).with_link(
                    base + 1,
                    base + 14,
                ).with_link(base, base + 15)
            });
        }
        let nn = self.nodes.len();
        let mut i: usize = 0;
        while i < nn
            invariant
                d.wf(),
                nn == self.nodes@.len(),
                i <= nn,
                d.sigs@.len() >= ubase,
                nodes_describe_v(self.nodes@, path@, dv0, 0) == nodes_describe_v(
                    self.nodes@,
                    path@,
                    d.view_d(),
                    i as int,
                ),
            decreases nn - i,
        {
            let name: &str = node_name(i);
            let sub = crate::graph::sub_path(path, name);
            let ghost pre_v = d.view_d();
            let _ = self.nodes[i].describe_into(sub.as_str(), d);
            proof {
                assert(nodes_describe_v(self.nodes@, path@, pre_v, i as int) == nodes_describe_v(
                    self.nodes@,
                    path@,
                    d.view_d(),
                    i as int + 1,
                ));
            }
            i = i + 1;
        }
        proof {
            assert(d.view_d() =~= Self::describe_v(*self, path@, old(d).view_d()));
        }
    }

    proof fn lemma_step_idempotent(s: Self) {
        let v = s.view_b();
        assert(Self::step(Self::step(v)).nodes =~= Self::step(v).nodes);
        assert(Self::step(Self::step(v)) =~= Self::step(v));
    }

    proof fn lemma_step_keeps_current(s: Self) {
        lemma_nodes_snap_route(s.view_b(), 0);
        assert(Self::snap(Self::step(s.view_b())) =~= Self::snap(s.view_b()));
    }
}

/// The current values of the device ports from index `i` on, in port order.
pub open spec fn nodes_snap<const D: usize>(nodes: Seq<SoCPortController<D>>, i: int) -> Seq<u64>
    decreases nodes.len() - i,
{
    if i < 0 || i >= nodes.len() {
        Seq::<u64>::empty()
    } else {
        SoCPortController::snap(nodes[i]) + nodes_snap(nodes, i + 1)
    }
}

/// Routing keeps every port's current values.
proof fn lemma_nodes_snap_route<const D: usize, const A: usize>(pre: BridgeV<D, A>, i: int)
    ensures
        nodes_snap(Seq::new(pre.nodes.len(), |k: int| route_node(pre, k)), i) == nodes_snap(
            pre.nodes,
            i,
        ),
    decreases pre.nodes.len() - i,
{
    let routed = Seq::new(pre.nodes.len(), |k: int| route_node(pre, k));
    if 0 <= i < pre.nodes.len() {
        lemma_nodes_snap_route(pre, i + 1);
        assert(SoCPortController::snap(routed[i]) =~= SoCPortController::snap(pre.nodes[i]));
    }
}

/// The names of the device ports, as character sequences.
pub open spec fn node_name_v(i: int) -> Seq<char> {
    if i == 0 {
        "node0"@
    } else if i == 1 {
        "node1"@
    } else if i == 2 {
        "node2"@
    } else if i == 3 {
        "node3"@
    } else if i == 4 {
        "node4"@
    } else if i == 5 {
        "node5"@
    } else if i == 6 {
        "node6"@
    } else if i == 7 {
        "node7"@
    } else {
        "node_more"@
    }
}

/// The description image of registering the device ports from `i` on.
pub open spec fn nodes_describe_v<const D: usize>(
    nodes: Seq<SoCPortController<D>>,
    path: Seq<char>,
    d: CircuitDescV,
    i: int,
) -> CircuitDescV
    decreases nodes.len() - i,
{
    if i < 0 || i >= nodes.len() {
        d
    } else {
        nodes_describe_v(nodes, path, nodes[i].describe_v(path + "."@ + node_name_v(i), d), i + 1)
    }
}

/// A fixed name for each of the first device ports.
fn node_name(i: usize) -> (r: &'static str)
    ensures
        r@ == node_name_v(i as int),
{
    if i == 0 {
        "node0"
    } else if i == 1 {
        "node1"
    } else if i == 2 {
        "node2"
    } else if i == 3 {
        "node3"
    } else if i == 4 {
        "node4"
    } else if i == 5 {
        "node5"
    } else if i == 6 {
        "node6"
    } else if i == 7 {
        "node7"
    } else {
        "node_more"
    }
}

} // verus!
