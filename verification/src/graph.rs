//! The static description of a component graph: one entry per signal, alias
//! (link/join) edges, and combinational dependency edges.  The connectivity
//! check, the logic-loop detector and the timing analyzer all run over this
//! description; registers break dependency edges by simply not contributing
//! them.  `CircuitDescV` is the description's mathematical image, which the
//! content contracts of the builders and of every block's `describe` are
//! stated over.

use vstd::prelude::*;

use crate::signal::{Direction, Signal};

verus! {

/// One registered signal: its dot-separated path from the root, width,
/// direction, external-drive mark, and whether it is a register output.
#[derive(Clone, Debug)]
pub struct SignalInfo {
    pub path: String,
    pub width: usize,
    pub dir: Direction,
    pub connected: bool,
    pub clocked: bool,
}

/// The mathematical image of one registered signal.
#[verifier::ext_equal]
pub struct SigRowV {
    pub path: Seq<char>,
    pub width: nat,
    pub dir: Direction,
    pub connected: bool,
    pub clocked: bool,
}

/// The mathematical image of a circuit description.
#[verifier::ext_equal]
pub struct CircuitDescV {
    pub sigs: Seq<SigRowV>,
    pub links: Seq<(int, int)>,
    pub deps: Seq<(int, int)>,
}

impl CircuitDescV {
    /// The empty description.
    pub open spec fn empty() -> CircuitDescV {
        CircuitDescV {
            sigs: Seq::<SigRowV>::empty(),
            links: Seq::<(int, int)>::empty(),
            deps: Seq::<(int, int)>::empty(),
        }
    }

    /// The description with one more signal row.
    pub open spec fn with_sig(
        self,
        path: Seq<char>,
        width: nat,
        dir: Direction,
        connected: bool,
        clocked: bool,
    ) -> CircuitDescV {
        CircuitDescV {
            sigs: self.sigs.push(SigRowV { path, width, dir, connected, clocked }),
            ..self
        }
    }

    /// The description with one more alias edge.
    pub open spec fn with_link(self, a: int, b: int) -> CircuitDescV {
        CircuitDescV { links: self.links.push((a, b)), ..self }
    }

    /// The description with one more combinational dependency edge.
    pub open spec fn with_dep(self, a: int, b: int) -> CircuitDescV {
        CircuitDescV { deps: self.deps.push((a, b)), ..self }
    }
}

/// The static graph of a component tree.
#[derive(Clone, Debug)]
pub struct CircuitDesc {
    /// Every signal of the tree, in registration order.
    pub sigs: Vec<SignalInfo>,
    /// Alias edges: the two signals are the same wire.
    pub links: Vec<(usize, usize)>,
    /// Combinational edges: the first signal's value is used, within one
    /// update pass and with no register in between, to compute the second.
    pub deps: Vec<(usize, usize)>,
}

impl CircuitDesc {
    /// Every edge points at a registered signal.
    pub open spec fn wf(self) -> bool {
        &&& forall|k: int|
            0 <= k < self.links@.len() ==> (#[trigger] self.links@[k]).0 < self.sigs@.len()
                && self.links@[k].1 < self.sigs@.len()
        &&& forall|k: int|
            0 <= k < self.deps@.len() ==> (#[trigger] self.deps@[k]).0 < self.sigs@.len()
                && self.deps@[k].1 < self.sigs@.len()
    }

    /// The description's mathematical image.
    pub open spec fn view_d(self) -> CircuitDescV {
        CircuitDescV {
            sigs: Seq::new(
                self.sigs@.len(),
                |i: int|
                    SigRowV {
                        path: self.sigs@[i].path@,
                        width: self.sigs@[i].width as nat,
                        dir: self.sigs@[i].dir,
                        connected: self.sigs@[i].connected,
                        clocked: self.sigs@[i].clocked,
                    },
            ),
            links: Seq::new(
                self.links@.len(),
                |i: int| ((self.links@[i].0 as int), (self.links@[i].1 as int)),
            ),
            deps: Seq::new(
                self.deps@.len(),
                |i: int| ((self.deps@[i].0 as int), (self.deps@[i].1 as int)),
            ),
        }
    }

    /// An empty description.
    pub fn new() -> (r: Self)
        ensures
            r.wf(),
            r.sigs@.len() == 0,
            r.links@.len() == 0,
            r.deps@.len() == 0,
            r.view_d() == CircuitDescV::empty(),
    {
        let r = CircuitDesc { sigs: Vec::new(), links: Vec::new(), deps: Vec::new() };
        proof {
            assert(r.view_d() =~= CircuitDescV::empty());
        }
        r
    }

    /// Register one signal under `path`.`name` and hand back its index.
    pub fn add_signal<const W: usize>(
        &mut self,
        path: &str,
        name: &str,
        sig: &Signal<W>,
        clocked: bool,
    ) -> (r: usize)
        requires
            old(self).wf(),
        ensures
            final(self).wf(),
            final(self).sigs@.len() == old(self).sigs@.len() + 1,
            r == old(self).sigs@.len(),
            final(self).view_d() == old(self).view_d().with_sig(
                path@ + "."@ + name@,
                W as nat,
                sig.dir,
                sig.connected,
                clocked,
            ),
    {
        let info = SignalInfo {
            path: sub_path(path, name),
            width: W,
            dir: sig.dir,
            connected: sig.connected,
            clocked,
        };
        let r = self.sigs.len();
        self.sigs.push(info);
        proof {
            assert(self.view_d().sigs =~= old(self).view_d().with_sig(
                path@ + "."@ + name@,
                W as nat,
                sig.dir,
                sig.connected,
                clocked,
            ).sigs);
            assert(self.view_d().links =~= old(self).view_d().links);
            assert(self.view_d().deps =~= old(self).view_d().deps);
            assert(self.view_d() =~= old(self).view_d().with_sig(
                path@ + "."@ + name@,
                W as nat,
                sig.dir,
                sig.connected,
                clocked,
            ));
        }
        r
    }

    /// Record that the two signals are the same wire.
    pub fn add_link(&mut self, a: usize, b: usize)
        requires
            old(self).wf(),
            a < old(self).sigs@.len(),
            b < old(self).sigs@.len(),
        ensures
            final(self).wf(),
            final(self).sigs@ == old(self).sigs@,
            final(self).view_d() == old(self).view_d().with_link(a as int, b as int),
    {
        self.links.push((a, b));
        proof {
            assert(self.view_d().links =~= old(self).view_d().with_link(a as int, b as int).links);
            assert(self.view_d().sigs =~= old(self).view_d().sigs);
            assert(self.view_d().deps =~= old(self).view_d().deps);
            assert(self.view_d() =~= old(self).view_d().with_link(a as int, b as int));
        }
    }

    /// Record that signal `a` combinationally feeds signal `b`.
    pub fn add_dep(&mut self, a: usize, b: usize)
        requires
            old(self).wf(),
            a < old(self).sigs@.len(),
            b < old(self).sigs@.len(),
        ensures
            final(self).wf(),
            final(self).sigs@ == old(self).sigs@,
            final(self).view_d() == old(self).view_d().with_dep(a as int, b as int),
    {
        self.deps.push((a, b));
        proof {
            assert(self.view_d().deps =~= old(self).view_d().with_dep(a as int, b as int).deps);
            assert(self.view_d().sigs =~= old(self).view_d().sigs);
            assert(self.view_d().links =~= old(self).view_d().links);
            assert(self.view_d() =~= old(self).view_d().with_dep(a as int, b as int));
        }
    }
}

/// `path`.`name`, the dot-separated path of a child item.
pub fn sub_path(path: &str, name: &str) -> (r: String)
    ensures
        r@ == path@ + "."@ + name@,
{
    let mut p = String::from_str(path);
    p.append(".");
    p.append(name);
    p
}

} // verus!
