//! The register-mapped SoC bus interfaces.  A controller issues an address,
//! then strobes data words at the selected port; a responder answers with
//! ready/strobe handshakes.  Joining a controller to a responder makes the
//! paired signals one wire.

use vstd::prelude::*;

use crate::graph::{CircuitDesc, CircuitDescV};
use crate::signal::{Direction, Signal};

verus! {

/// The master side of the SoC bus: issues addresses and data words.
#[derive(Clone, Copy, Debug)]
pub struct SoCBusController<const D: usize, const A: usize> {
    pub clock: Signal<1>,
    pub reset: Signal<1>,
    pub address: Signal<A>,
    pub address_strobe: Signal<1>,
    pub from_master: Signal<D>,
    pub to_master: Signal<D>,
    pub ready: Signal<1>,
    pub strobe: Signal<1>,
}

impl<const D: usize, const A: usize> SoCBusController<D, A> {
    pub open spec fn wf(self) -> bool {
        &&& self.clock.wf()
        &&& self.reset.wf()
        &&& self.address.wf()
        &&& self.address_strobe.wf()
        &&& self.from_master.wf()
        &&& self.to_master.wf()
        &&& self.ready.wf()
        &&& self.strobe.wf()
    }

    pub open spec fn latched(pre: Self) -> Self {
        SoCBusController {
            clock: pre.clock.latched(),
            reset: pre.reset.latched(),
            address: pre.address.latched(),
            address_strobe: pre.address_strobe.latched(),
            from_master: pre.from_master.latched(),
            to_master: pre.to_master.latched(),
            ready: pre.ready.latched(),
            strobe: pre.strobe.latched(),
        }
    }

    pub open spec fn snap(s: Self) -> Seq<u64> {
        seq![
            s.clock.current,
            s.reset.current,
            s.address.current,
            s.address_strobe.current,
            s.from_master.current,
            s.to_master.current,
            s.ready.current,
            s.strobe.current,
        ]
    }

    pub fn new() -> (r: Self)
        requires
            1 <= D <= 64,
            1 <= A <= 64,
        ensures
            r.wf(),
            r == Self::initial(),
    {
        SoCBusController {
            clock: Signal::new(Direction::In),
            reset: Signal::new(Direction::Local),
            address: Signal::new(Direction::In),
            address_strobe: Signal::new(Direction::In),
            from_master: Signal::new(Direction::In),
            to_master: Signal::new(Direction::Out),
            ready: Signal::new(Direction::Out),
            strobe: Signal::new(Direction::In),
        }
    }

    pub open spec fn initial() -> Self {
        SoCBusController {
            clock: Signal { dir: Direction::In, current: 0, next: 0, connected: false },
            reset: Signal { dir: Direction::Local, current: 0, next: 0, connected: false },
            address: Signal { dir: Direction::In, current: 0, next: 0, connected: false },
            address_strobe: Signal { dir: Direction::In, current: 0, next: 0, connected: false },
            from_master: Signal { dir: Direction::In, current: 0, next: 0, connected: false },
            to_master: Signal { dir: Direction::Out, current: 0, next: 0, connected: false },
            ready: Signal { dir: Direction::Out, current: 0, next: 0, connected: false },
            strobe: Signal { dir: Direction::In, current: 0, next: 0, connected: false },
        }
    }

    pub fn commit_signals(&mut self)
        requires
            old(self).wf(),
        ensures
            final(self).wf(),
            *final(self) == Self::latched(*old(self)),
    {
        self.clock.commit();
        self.reset.commit();
        self.address.commit();
        self.address_strobe.commit();
        self.from_master.commit();
        self.to_master.commit();
        self.ready.commit();
        self.strobe.commit();
    }

    pub fn settled_signals(&self) -> (r: bool)
        ensures
            r == (Self::latched(*self) == *self),
    {
        let r = self.clock.is_settled() && self.reset.is_settled() && self.address.is_settled()
            && self.address_strobe.is_settled() && self.from_master.is_settled()
            && self.to_master.is_settled() && self.ready.is_settled() && self.strobe.is_settled();
        proof {
            if r {
                assert(Self::latched(*self) == *self);
            }
        }
        r
    }

    pub fn snapshot_into(&self, out: &mut Vec<u64>)
        ensures
            final(out)@ == old(out)@ + Self::snap(*self),
    {
        out.push(self.clock.current);
        out.push(self.reset.current);
        out.push(self.address.current);
        out.push(self.address_strobe.current);
        out.push(self.from_master.current);
        out.push(self.to_master.current);
        out.push(self.ready.current);
        out.push(self.strobe.current);
        proof {
            assert(out@ =~= old(out)@ + Self::snap(*self));
        }
    }

    /// The mathematical image of the eight registered signal rows.
    pub open spec fn describe_v(self, path: Seq<char>, d: CircuitDescV) -> CircuitDescV {
        d.with_sig(path + "."@ + "clock"@, 1, self.clock.dir, self.clock.connected, false)
            .with_sig(path + "."@ + "reset"@, 1, self.reset.dir, self.reset.connected, false)
            .with_sig(path + "."@ + "address"@, A as nat, self.address.dir,
            self.address.connected, false)
            .with_sig(path + "."@ + "address_strobe"@, 1, self.address_strobe.dir,
            self.address_strobe.connected, false)
            .with_sig(path + "."@ + "from_master"@, D as nat, self.from_master.dir,
            self.from_master.connected, false)
            .with_sig(path + "."@ + "to_master"@, D as nat, self.to_master.dir,
            self.to_master.connected, false)
            .with_sig(path + "."@ + "ready"@, 1, self.ready.dir, self.ready.connected, false)
            .with_sig(path + "."@ + "strobe"@, 1, self.strobe.dir, self.strobe.connected, false)
    }

    /// Register the eight signals; hands back the index of the first.
    pub fn describe_into(&self, path: &str, d: &mut CircuitDesc) -> (base: usize)
        requires
            old(d).wf(),
        ensures
            final(d).wf(),
            final(d).sigs@.len() == old(d).sigs@.len() + 8,
            base == old(d).sigs@.len(),
            final(d).view_d() == self.describe_v(path@, old(d).view_d()),
    {
        let base = d.add_signal(path, "clock", &self.clock, false);
        let _ = d.add_signal(path, "reset", &self.reset, false);
        let _ = d.add_signal(path, "address", &self.address, false);
        let _ = d.add_signal(path, "address_strobe", &self.address_strobe, false);
        let _ = d.add_signal(path, "from_master", &self.from_master, false);
        let _ = d.add_signal(path, "to_master", &self.to_master, false);
        let _ = d.add_signal(path, "ready", &self.ready, false);
        let _ = d.add_signal(path, "strobe", &self.strobe, false);
        base
    }
}

/// The device side of the SoC bus, mirroring the controller.
#[derive(Clone, Copy, Debug)]
pub struct SoCBusResponder<const D: usize, const A: usize> {
    pub clock: Signal<1>,
    pub reset: Signal<1>,
    pub address: Signal<A>,
    pub address_strobe: Signal<1>,
    pub from_controller: Signal<D>,
    pub to_controller: Signal<D>,
    pub ready: Signal<1>,
    pub strobe: Signal<1>,
}

impl<const D: usize, const A: usize> SoCBusResponder<D, A> {
    pub open spec fn wf(self) -> bool {
        &&& self.clock.wf()
        &&& self.reset.wf()
        &&& self.address.wf()
        &&& self.address_strobe.wf()
        &&& self.from_controller.wf()
        &&& self.to_controller.wf()
        &&& self.ready.wf()
        &&& self.strobe.wf()
    }

    pub open spec fn latched(pre: Self) -> Self {
        SoCBusResponder {
            clock: pre.clock.latched(),
            reset: pre.reset.latched(),
            address: pre.address.latched(),
            address_strobe: pre.address_strobe.latched(),
            from_controller: pre.from_controller.latched(),
            to_controller: pre.to_controller.latched(),
            ready: pre.ready.latched(),
            strobe: pre.strobe.latched(),
        }
    }

    pub open spec fn snap(s: Self) -> Seq<u64> {
        seq![
            s.clock.current,
            s.reset.current,
            s.address.current,
            s.address_strobe.current,
            s.from_controller.current,
            s.to_controller.current,
            s.ready.current,
            s.strobe.current,
        ]
    }

    pub fn new() -> (r: Self)
        requires
            1 <= D <= 64,
            1 <= A <= 64,
        ensures
            r.wf(),
            r == Self::initial(),
    {
        SoCBusResponder {
            clock: Signal::new(Direction::In),
            reset: Signal::new(Direction::In),
            address: Signal::new(Direction::In),
            address_strobe: Signal::new(Direction::In),
            from_controller: Signal::new(Direction::In),
            to_controller: Signal::new(Direction::Out),
            ready: Signal::new(Direction::Out),
            strobe: Signal::new(Direction::In),
        }
    }

    pub open spec fn initial() -> Self {
        SoCBusResponder {
            clock: Signal { dir: Direction::In, current: 0, next: 0, connected: false },
            reset: Signal { dir: Direction::In, current: 0, next: 0, connected: false },
            address: Signal { dir: Direction::In, current: 0, next: 0, connected: false },
            address_strobe: Signal { dir: Direction::In, current: 0, next: 0, connected: false },
            from_controller: Signal { dir: Direction::In, current: 0, next: 0, connected: false },
            to_controller: Signal { dir: Direction::Out, current: 0, next: 0, connected: false },
            ready: Signal { dir: Direction::Out, current: 0, next: 0, connected: false },
            strobe: Signal { dir: Direction::In, current: 0, next: 0, connected: false },
        }
    }

    pub fn commit_signals(&mut self)
        requires
            old(self).wf(),
        ensures
            final(self).wf(),
            *final(self) == Self::latched(*old(self)),
    {
        self.clock.commit();
        self.reset.commit();
        self.address.commit();
        self.address_strobe.commit();
        self.from_controller.commit();
        self.to_controller.commit();
        self.ready.commit();
        self.strobe.commit();
    }

    pub fn settled_signals(&self) -> (r: bool)
        ensures
            r == (Self::latched(*self) == *self),
    {
        let r = self.clock.is_settled() && self.reset.is_settled() && self.address.is_settled()
            && self.address_strobe.is_settled() && self.from_controller.is_settled()
            && self.to_controller.is_settled() && self.ready.is_settled()
            && self.strobe.is_settled();
        proof {
            if r {
                assert(Self::latched(*self) == *self);
            }
        }
        r
    }

    pub fn snapshot_into(&self, out: &mut Vec<u64>)
        ensures
            final(out)@ == old(out)@ + Self::snap(*self),
    {
        out.push(self.clock.current);
        out.push(self.reset.current);
        out.push(self.address.current);
        out.push(self.address_strobe.current);
        out.push(self.from_controller.current);
        out.push(self.to_controller.current);
        out.push(self.ready.current);
        out.push(self.strobe.current);
        proof {
            assert(out@ =~= old(out)@ + Self::snap(*self));
        }
    }

    /// The mathematical image of the eight registered signal rows.
    pub open spec fn describe_v(self, path: Seq<char>, d: CircuitDescV) -> CircuitDescV {
        d.with_sig(path + "."@ + "clock"@, 1, self.clock.dir, self.clock.connected, false)
            .with_sig(path + "."@ + "reset"@, 1, self.reset.dir, self.reset.connected, false)
            .with_sig(path + "."@ + "address"@, A as nat, self.address.dir,
            self.address.connected, false)
            .with_sig(path + "."@ + "address_strobe"@, 1, self.address_strobe.dir,
            self.address_strobe.connected, false)
            .with_sig(path + "."@ + "from_controller"@, D as nat, self.from_controller.dir,
            self.from_controller.connected, false)
            .with_sig(path + "."@ + "to_controller"@, D as nat, self.to_controller.dir,
            self.to_controller.connected, false)
            .with_sig(path + "."@ + "ready"@, 1, self.ready.dir, self.ready.connected, false)
            .with_sig(path + "."@ + "strobe"@, 1, self.strobe.dir, self.strobe.connected, false)
    }

    /// Register the eight signals; hands back the index of the first.
    pub fn describe_into(&self, path: &str, d: &mut CircuitDesc) -> (base: usize)
        requires
            old(d).wf(),
        ensures
            final(d).wf(),
            final(d).sigs@.len() == old(d).sigs@.len() + 8,
            base == old(d).sigs@.len(),
            final(d).view_d() == self.describe_v(path@, old(d).view_d()),
    {
        let base = d.add_signal(path, "clock", &self.clock, false);
        let _ = d.add_signal(path, "reset", &self.reset, false);
        let _ = d.add_signal(path, "address", &self.address, false);
        let _ = d.add_signal(path, "address_strobe", &self.address_strobe, false);
        let _ = d.add_signal(path, "from_controller", &self.from_controller, false);
        let _ = d.add_signal(path, "to_controller", &self.to_controller, false);
        let _ = d.add_signal(path, "ready", &self.ready, false);
        let _ = d.add_signal(path, "strobe", &self.strobe, false);
        base
    }
}

/// What joining a controller to a responder computes: the controller's
/// commands pass down, the responder's replies pass up.
pub open spec fn join_bus_spec<const D: usize, const A: usize>(
    c: SoCBusController<D, A>,
    r: SoCBusResponder<D, A>,
) -> (SoCBusController<D, A>, SoCBusResponder<D, A>) {
    (
        SoCBusController {
            to_master: c.to_master.with_next(r.to_controller.current),
            ready: c.ready.with_next(r.ready.current),
            ..c
        },
        SoCBusResponder {
            clock: r.clock.with_next(c.clock.current),
            reset: r.reset.with_next(c.reset.current),
            address: r.address.with_next(c.address.current),
            address_strobe: r.address_strobe.with_next(c.address_strobe.current),
            from_controller: r.from_controller.with_next(c.from_master.current),
            strobe: r.strobe.with_next(c.strobe.current),
            ..r
        },
    )
}

/// Join a bus controller to a bus responder: one wire per signal pair.
pub fn join_bus<const D: usize, const A: usize>(
    c: &mut SoCBusController<D, A>,
    r: &mut SoCBusResponder<D, A>,
)
    requires
        old(c).wf(),
        old(r).wf(),
    ensures
        final(c).wf(),
        final(r).wf(),
        (*final(c), *final(r)) == join_bus_spec(*old(c), *old(r)),
{
    let v = r.to_controller.val();
    c.to_master.set_next(v);
    let v = r.ready.val();
    c.ready.set_next(v);
    let v = c.clock.val();
    r.clock.set_next(v);
    let v = c.reset.val();
    r.reset.set_next(v);
    let v = c.address.val();
    r.address.set_next(v);
    let v = c.address_strobe.val();
    r.address_strobe.set_next(v);
    let v = c.from_master.val();
    r.from_controller.set_next(v);
    let v = c.strobe.val();
    r.strobe.set_next(v);
}

/// Record the link edges of a joined controller/responder pair, given the
/// first index of each side's eight signals.
pub fn link_bus(d: &mut CircuitDesc, cbase: usize, rbase: usize)
    requires
        old(d).wf(),
        cbase + 8 <= old(d).sigs@.len(),
        rbase + 8 <= old(d).sigs@.len(),
    ensures
        final(d).wf(),
        final(d).sigs@ == old(d).sigs@,
{
    let n = d.sigs.len();
    let mut i: usize = 0;
    while i < 8
        invariant
            d.wf(),
            d.sigs@ == old(d).sigs@,
            n == d.sigs@.len(),
            cbase + 8 <= n,
            rbase + 8 <= n,
            i <= 8,
        decreases 8 - i,
    {
        d.add_link(cbase + i, rbase + i);
        i = i + 1;
    }
}

/// The bridge's side of one device port: the bridge drives the routed
/// command and select lines and listens for the reply.
#[derive(Clone, Copy, Debug)]
pub struct SoCPortController<const D: usize> {
    pub from_controller: Signal<D>,
    pub select: Signal<1>,
    pub strobe: Signal<1>,
    pub clock: Signal<1>,
    pub reset: Signal<1>,
    pub to_controller: Signal<D>,
    pub ready: Signal<1>,
}

impl<const D: usize> SoCPortController<D> {
    pub open spec fn wf(self) -> bool {
        &&& self.from_controller.wf()
        &&& self.select.wf()
        &&& self.strobe.wf()
        &&& self.clock.wf()
        &&& self.reset.wf()
        &&& self.to_controller.wf()
        &&& self.ready.wf()
    }

    pub open spec fn latched(pre: Self) -> Self {
        SoCPortController {
            from_controller: pre.from_controller.latched(),
            select: pre.select.latched(),
            strobe: pre.strobe.latched(),
            clock: pre.clock.latched(),
            reset: pre.reset.latched(),
            to_controller: pre.to_controller.latched(),
            ready: pre.ready.latched(),
        }
    }

    pub open spec fn snap(s: Self) -> Seq<u64> {
        seq![
            s.from_controller.current,
            s.select.current,
            s.strobe.current,
            s.clock.current,
            s.reset.current,
            s.to_controller.current,
            s.ready.current,
        ]
    }

    pub fn new() -> (r: Self)
        requires
            1 <= D <= 64,
        ensures
            r.wf(),
            r == Self::initial(),
    {
        SoCPortController {
            from_controller: Signal::new(Direction::Out),
            select: Signal::new(Direction::Out),
            strobe: Signal::new(Direction::Out),
            clock: Signal::new(Direction::Out),
            reset: Signal::new(Direction::Out),
            to_controller: Signal::new(Direction::In),
            ready: Signal::new(Direction::In),
        }
    }

    pub open spec fn initial() -> Self {
        SoCPortController {
            from_controller: Signal { dir: Direction::Out, current: 0, next: 0, connected: false },
            select: Signal { dir: Direction::Out, current: 0, next: 0, connected: false },
            strobe: Signal { dir: Direction::Out, current: 0, next: 0, connected: false },
            clock: Signal { dir: Direction::Out, current: 0, next: 0, connected: false },
            reset: Signal { dir: Direction::Out, current: 0, next: 0, connected: false },
            to_controller: Signal { dir: Direction::In, current: 0, next: 0, connected: false },
            ready: Signal { dir: Direction::In, current: 0, next: 0, connected: false },
        }
    }

    pub fn commit_signals(&mut self)
        requires
            old(self).wf(),
        ensures
            final(self).wf(),
            *final(self) == Self::latched(*old(self)),
    {
        self.from_controller.commit();
        self.select.commit();
        self.strobe.commit();
        self.clock.commit();
        self.reset.commit();
        self.to_controller.commit();
        self.ready.commit();
    }

    pub fn settled_signals(&self) -> (r: bool)
        ensures
            r == (Self::latched(*self) == *self),
    {
        let r = self.from_controller.is_settled() && self.select.is_settled()
            && self.strobe.is_settled() && self.clock.is_settled() && self.reset.is_settled()
            && self.to_controller.is_settled() && self.ready.is_settled();
        proof {
            if r {
                assert(Self::latched(*self) == *self);
            }
        }
        r
    }

    pub fn snapshot_into(&self, out: &mut Vec<u64>)
        ensures
            final(out)@ == old(out)@ + Self::snap(*self),
    {
        out.push(self.from_controller.current);
        out.push(self.select.current);
        out.push(self.strobe.current);
        out.push(self.clock.current);
        out.push(self.reset.current);
        out.push(self.to_controller.current);
        out.push(self.ready.current);
        proof {
            assert(out@ =~= old(out)@ + Self::snap(*self));
        }
    }

    /// The mathematical image of the seven registered signal rows.
    pub open spec fn describe_v(self, path: Seq<char>, d: CircuitDescV) -> CircuitDescV {
        d.with_sig(path + "."@ + "from_controller"@, D as nat, self.from_controller.dir,
            self.from_controller.connected, false)
            .with_sig(path + "."@ + "select"@, 1, self.select.dir, self.select.connected, false)
            .with_sig(path + "."@ + "strobe"@, 1, self.strobe.dir, self.strobe.connected, false)
            .with_sig(path + "."@ + "clock"@, 1, self.clock.dir, self.clock.connected, false)
            .with_sig(path + "."@ + "reset"@, 1, self.reset.dir, self.reset.connected, false)
            .with_sig(path + "."@ + "to_controller"@, D as nat, self.to_controller.dir,
            self.to_controller.connected, false)
            .with_sig(path + "."@ + "ready"@, 1, self.ready.dir, self.ready.connected, false)
    }

    /// Register the seven signals; hands back the index of the first.
    pub fn describe_into(&self, path: &str, d: &mut CircuitDesc) -> (base: usize)
        requires
            old(d).wf(),
        ensures
            final(d).wf(),
            final(d).sigs@.len() == old(d).sigs@.len() + 7,
            base == old(d).sigs@.len(),
            final(d).view_d() == self.describe_v(path@, old(d).view_d()),
    {
        let base = d.add_signal(path, "from_controller", &self.from_controller, false);
        let _ = d.add_signal(path, "select", &self.select, false);
        let _ = d.add_signal(path, "strobe", &self.strobe, false);
        let _ = d.add_signal(path, "clock", &self.clock, false);
        let _ = d.add_signal(path, "reset", &self.reset, false);
        let _ = d.add_signal(path, "to_controller", &self.to_controller, false);
        let _ = d.add_signal(path, "ready", &self.ready, false);
        base
    }
}

/// A device's side of its port: mirrors `SoCPortController`.
#[derive(Clone, Copy, Debug)]
pub struct SoCPortResponder<const D: usize> {
    pub from_controller: Signal<D>,
    pub select: Signal<1>,
    pub strobe: Signal<1>,
    pub clock: Signal<1>,
    pub reset: Signal<1>,
    pub to_controller: Signal<D>,
    pub ready: Signal<1>,
}

impl<const D: usize> SoCPortResponder<D> {
    pub open spec fn wf(self) -> bool {
        &&& self.from_controller.wf()
        &&& self.select.wf()
        &&& self.strobe.wf()
        &&& self.clock.wf()
        &&& self.reset.wf()
        &&& self.to_controller.wf()
        &&& self.ready.wf()
    }

    pub open spec fn latched(pre: Self) -> Self {
        SoCPortResponder {
            from_controller: pre.from_controller.latched(),
            select: pre.select.latched(),
            strobe: pre.strobe.latched(),
            clock: pre.clock.latched(),
            reset: pre.reset.latched(),
            to_controller: pre.to_controller.latched(),
            ready: pre.ready.latched(),
        }
    }

    pub open spec fn snap(s: Self) -> Seq<u64> {
        seq![
            s.from_controller.current,
            s.select.current,
            s.strobe.current,
            s.clock.current,
            s.reset.current,
            s.to_controller.current,
            s.ready.current,
        ]
    }

    pub fn new() -> (r: Self)
        requires
            1 <= D <= 64,
        ensures
            r.wf(),
            r == Self::initial(),
    {
        SoCPortResponder {
            from_controller: Signal::new(Direction::In),
            select: Signal::new(Direction::In),
            strobe: Signal::new(Direction::In),
            clock: Signal::new(Direction::In),
            reset: Signal::new(Direction::In),
            to_controller: Signal::new(Direction::Out),
            ready: Signal::new(Direction::Out),
        }
    }

    pub open spec fn initial() -> Self {
        SoCPortResponder {
            from_controller: Signal { dir: Direction::In, current: 0, next: 0, connected: false },
            select: Signal { dir: Direction::In, current: 0, next: 0, connected: false },
            strobe: Signal { dir: Direction::In, current: 0, next: 0, connected: false },
            clock: Signal { dir: Direction::In, current: 0, next: 0, connected: false },
            reset: Signal { dir: Direction::In, current: 0, next: 0, connected: false },
            to_controller: Signal { dir: Direction::Out, current: 0, next: 0, connected: false },
            ready: Signal { dir: Direction::Out, current: 0, next: 0, connected: false },
        }
    }

    pub fn commit_signals(&mut self)
        requires
            old(self).wf(),
        ensures
            final(self).wf(),
            *final(self) == Self::latched(*old(self)),
    {
        self.from_controller.commit();
        self.select.commit();
        self.strobe.commit();
        self.clock.commit();
        self.reset.commit();
        self.to_controller.commit();
        self.ready.commit();
    }

    pub fn settled_signals(&self) -> (r: bool)
        ensures
            r == (Self::latched(*self) == *self),
    {
        let r = self.from_controller.is_settled() && self.select.is_settled()
            && self.strobe.is_settled() && self.clock.is_settled() && self.reset.is_settled()
            && self.to_controller.is_settled() && self.ready.is_settled();
        proof {
            if r {
                assert(Self::latched(*self) == *self);
            }
        }
        r
    }

    pub fn snapshot_into(&self, out: &mut Vec<u64>)
        ensures
            final(out)@ == old(out)@ + Self::snap(*self),
    {
        out.push(self.from_controller.current);
        out.push(self.select.current);
        out.push(self.strobe.current);
        out.push(self.clock.current);
        out.push(self.reset.current);
        out.push(self.to_controller.current);
        out.push(self.ready.current);
        proof {
            assert(out@ =~= old(out)@ + Self::snap(*self));
        }
    }

    /// The mathematical image of the seven registered signal rows.
    pub open spec fn describe_v(self, path: Seq<char>, d: CircuitDescV) -> CircuitDescV {
        d.with_sig(path + "."@ + "from_controller"@, D as nat, self.from_controller.dir,
            self.from_controller.connected, false)
            .with_sig(path + "."@ + "select"@, 1, self.select.dir, self.select.connected, false)
            .with_sig(path + "."@ + "strobe"@, 1, self.strobe.dir, self.strobe.connected, false)
            .with_sig(path + "."@ + "clock"@, 1, self.clock.dir, self.clock.connected, false)
            .with_sig(path + "."@ + "reset"@, 1, self.reset.dir, self.reset.connected, false)
            .with_sig(path + "."@ + "to_controller"@, D as nat, self.to_controller.dir,
            self.to_controller.connected, false)
            .with_sig(path + "."@ + "ready"@, 1, self.ready.dir, self.ready.connected, false)
    }

    /// Register the seven signals; hands back the index of the first.
    pub fn describe_into(&self, path: &str, d: &mut CircuitDesc) -> (base: usize)
        requires
            old(d).wf(),
        ensures
            final(d).wf(),
            final(d).sigs@.len() == old(d).sigs@.len() + 7,
            base == old(d).sigs@.len(),
            final(d).view_d() == self.describe_v(path@, old(d).view_d()),
    {
        let base = d.add_signal(path, "from_controller", &self.from_controller, false);
        let _ = d.add_signal(path, "select", &self.select, false);
        let _ = d.add_signal(path, "strobe", &self.strobe, false);
        let _ = d.add_signal(path, "clock", &self.clock, false);
        let _ = d.add_signal(path, "reset", &self.reset, false);
        let _ = d.add_signal(path, "to_controller", &self.to_controller, false);
        let _ = d.add_signal(path, "ready", &self.ready, false);
        base
    }
}

/// What joining a port controller to a port responder computes.
pub open spec fn join_port_spec<const D: usize>(c: SoCPortController<D>, r: SoCPortResponder<D>) -> (
    SoCPortController<D>,
    SoCPortResponder<D>,
) {
    (
        SoCPortController {
            to_controller: c.to_controller.with_next(r.to_controller.current),
            ready: c.ready.with_next(r.ready.current),
            ..c
        },
        SoCPortResponder {
            from_controller: r.from_controller.with_next(c.from_controller.current),
            select: r.select.with_next(c.select.current),
            strobe: r.strobe.with_next(c.strobe.current),
            clock: r.clock.with_next(c.clock.current),
            reset: r.reset.with_next(c.reset.current),
            ..r
        },
    )
}

/// Join a port controller to a device port: one wire per signal pair.
pub fn join_port<const D: usize>(c: &mut SoCPortController<D>, r: &mut SoCPortResponder<D>)
    requires
        old(c).wf(),
        old(r).wf(),
    ensures
        final(c).wf(),
        final(r).wf(),
        (*final(c), *final(r)) == join_port_spec(*old(c), *old(r)),
{
    let v = r.to_controller.val();
    c.to_controller.set_next(v);
    let v = r.ready.val();
    c.ready.set_next(v);
    let v = c.from_controller.val();
    r.from_controller.set_next(v);
    let v = c.select.val();
    r.select.set_next(v);
    let v = c.strobe.val();
    r.strobe.set_next(v);
    let v = c.clock.val();
    r.clock.set_next(v);
    let v = c.reset.val();
    r.reset.set_next(v);
}

/// Record the link edges of a joined port pair, given the first index of
/// each side's seven signals.
pub fn link_port(d: &mut CircuitDesc, cbase: usize, rbase: usize)
    requires
        old(d).wf(),
        cbase + 7 <= old(d).sigs@.len(),
        rbase + 7 <= old(d).sigs@.len(),
    ensures
        final(d).wf(),
        final(d).sigs@ == old(d).sigs@,
{
    let n = d.sigs.len();
    let mut i: usize = 0;
    while i < 7
        invariant
            d.wf(),
            d.sigs@ == old(d).sigs@,
            n == d.sigs@.len(),
            cbase + 7 <= n,
            rbase + 7 <= n,
            i <= 7,
        decreases 7 - i,
    {
        d.add_link(cbase + i, rbase + i);
        i = i + 1;
    }
}

} // verus!
