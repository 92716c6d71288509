use rust_hdl::analysis::connect_all;
use rust_hdl::block::Block;
use rust_hdl::graph::CircuitDesc;
use rust_hdl::hls::bridge::Bridge;
use rust_hdl::hls::bus::{join_bus, join_port, link_bus, link_port, SoCBusController};
use rust_hdl::hls::ports::{MOSIPort, MOSIWidePort};
use rust_hdl::verilog::{emit_structural, validate_structural};

struct Rig {
    bus: SoCBusController<16, 2>,
    bridge: Bridge<16, 2, 2>,
    port_a: MOSIPort<16>,
    port_b: MOSIPort<16>,
}

impl Rig {
    fn new() -> Rig {
        Rig {
            bus: SoCBusController::new(),
            bridge: Bridge::new(["a", "b"]),
            port_a: MOSIPort::default(),
            port_b: MOSIPort::default(),
        }
    }

    fn settle_pass(&mut self) {
        join_bus(&mut self.bus, &mut self.bridge.upstream);
        {
            let mut n0 = self.bridge.nodes.remove(0);
            join_port(&mut n0, &mut self.port_a.bus);
            self.bridge.nodes.insert(0, n0);
        }
        {
            let mut n1 = self.bridge.nodes.remove(1);
            join_port(&mut n1, &mut self.port_b.bus);
            self.bridge.nodes.insert(1, n1);
        }
        self.bridge.update();
        self.port_a.update();
        self.port_b.update();
    }

    fn settled(&self) -> bool {
        self.bus.settled_signals() && self.bridge.settled() && self.port_a.settled()
            && self.port_b.settled()
    }

    fn commit(&mut self) {
        self.bus.commit_signals();
        self.bridge.commit();
        self.port_a.commit();
        self.port_b.commit();
    }

    fn half_cycle(&mut self, level: bool) {
        self.bus.clock.set_bool(level);
        for _ in 0..60 {
            self.settle_pass();
            if self.settled() {
                break;
            }
            self.commit();
        }
    }

    fn cycle(&mut self) {
        self.half_cycle(true);
        self.half_cycle(false);
    }
}

#[test]
fn test_port_test_synthesizes() {
    let mut rig = Rig::new();
    rig.bus.clock.connect();
    rig.bus.from_master.connect();
    rig.bus.address.connect();
    rig.bus.address_strobe.connect();
    rig.bus.strobe.connect();
    rig.port_a.ready.connect();
    rig.port_b.ready.connect();
    let mut d = CircuitDesc::new();
    let cbase = rig.bus.describe_into("top", &mut d);
    let rbase = d.sigs.len();
    rig.bridge.describe("top.bridge", &mut d);
    let after_bridge = d.sigs.len();
    link_bus(&mut d, cbase, rbase);
    let pa = d.sigs.len();
    rig.port_a.describe("top.port_a", &mut d);
    let pb = d.sigs.len();
    rig.port_b.describe("top.port_b", &mut d);
    link_port(&mut d, after_bridge - 14, pa);
    link_port(&mut d, after_bridge - 7, pb);
    connect_all(&d).unwrap();
    let vlog = emit_structural(&d);
    validate_structural("test_port", &vlog).unwrap();
}

#[test]
fn test_port_test_works() {
    // writing 0xDEAD to address 1 then 0xBEEF to address 0 with the
    // ready/strobe handshake reaches port B and port A exactly once each,
    // in issue order
    let mut rig = Rig::new();
    rig.port_a.ready.set_next(1);
    rig.port_b.ready.set_next(1);
    for _ in 0..4 {
        rig.cycle();
    }
    let mut a_pulses = 0u32;
    let mut b_pulses = 0u32;
    let mut b_first = false;
    let mut observe = |rig: &Rig, a: &mut u32, b: &mut u32, bf: &mut bool| {
        if rig.port_a.strobe_out.val() == 1 {
            *a += 1;
        }
        if rig.port_b.strobe_out.val() == 1 {
            *b += 1;
            if *a == 0 {
                *bf = true;
            }
        }
    };
    // select address 1
    rig.bus.address.set_next(1);
    rig.bus.address_strobe.set_next(1);
    rig.cycle();
    observe(&rig, &mut a_pulses, &mut b_pulses, &mut b_first);
    rig.bus.address_strobe.set_next(0);
    // wait for the handshake
    for _ in 0..10 {
        rig.cycle();
        observe(&rig, &mut a_pulses, &mut b_pulses, &mut b_first);
        if rig.bus.ready.val() == 1 {
            break;
        }
    }
    assert_eq!(rig.bus.ready.val(), 1);
    rig.bus.from_master.set_next(0xDEAD);
    rig.bus.strobe.set_next(1);
    rig.cycle();
    observe(&rig, &mut a_pulses, &mut b_pulses, &mut b_first);
    rig.bus.strobe.set_next(0);
    for _ in 0..4 {
        rig.cycle();
        observe(&rig, &mut a_pulses, &mut b_pulses, &mut b_first);
    }
    assert_eq!(rig.port_b.port_out.val(), 0xDEAD);
    // select address 0 and write the second value
    rig.bus.address.set_next(0);
    rig.bus.address_strobe.set_next(1);
    rig.cycle();
    observe(&rig, &mut a_pulses, &mut b_pulses, &mut b_first);
    rig.bus.address_strobe.set_next(0);
    for _ in 0..10 {
        rig.cycle();
        observe(&rig, &mut a_pulses, &mut b_pulses, &mut b_first);
        if rig.bus.ready.val() == 1 {
            break;
        }
    }
    rig.bus.from_master.set_next(0xBEEF);
    rig.bus.strobe.set_next(1);
    rig.cycle();
    observe(&rig, &mut a_pulses, &mut b_pulses, &mut b_first);
    rig.bus.strobe.set_next(0);
    for _ in 0..4 {
        rig.cycle();
        observe(&rig, &mut a_pulses, &mut b_pulses, &mut b_first);
    }
    assert_eq!(rig.port_a.port_out.val(), 0xBEEF);
    assert_eq!(rig.port_b.port_out.val(), 0xDEAD);
    assert_eq!(a_pulses, 1);
    assert_eq!(b_pulses, 1);
    assert!(b_first, "port B must observe its write before port A");
}

struct WideRig {
    bus: SoCBusController<16, 2>,
    bridge: Bridge<16, 2, 2>,
    port_a: MOSIWidePort<64, 16>,
}

impl WideRig {
    fn new() -> WideRig {
        WideRig {
            bus: SoCBusController::new(),
            bridge: Bridge::new(["a", "b"]),
            port_a: MOSIWidePort::default(),
        }
    }

    fn half_cycle(&mut self, level: bool) {
        self.bus.clock.set_bool(level);
        for _ in 0..60 {
            join_bus(&mut self.bus, &mut self.bridge.upstream);
            {
                let mut n0 = self.bridge.nodes.remove(0);
                join_port(&mut n0, &mut self.port_a.bus);
                self.bridge.nodes.insert(0, n0);
            }
            self.bridge.update();
            self.port_a.update();
            if self.bus.settled_signals() && self.bridge.settled() && self.port_a.settled() {
                break;
            }
            self.bus.commit_signals();
            self.bridge.commit();
            self.port_a.commit();
        }
    }

    fn cycle(&mut self) {
        self.half_cycle(true);
        self.half_cycle(false);
    }
}

#[test]
fn test_wport_test_synthesizes() {
    let rig = WideRig::new();
    let mut d = CircuitDesc::new();
    let _ = rig.bus.describe_into("top", &mut d);
    rig.bridge.describe("top.bridge", &mut d);
    rig.port_a.describe("top.port_a", &mut d);
    let vlog = emit_structural(&d);
    validate_structural("wide_test_port", &vlog).unwrap();
}

#[test]
fn test_wide_port_test_works() {
    // four 16-bit beats strobed in order assemble one 64-bit word
    let mut rig = WideRig::new();
    for _ in 0..4 {
        rig.cycle();
    }
    // select address 0
    rig.bus.address.set_next(0);
    rig.bus.address_strobe.set_next(1);
    rig.cycle();
    rig.bus.address_strobe.set_next(0);
    for _ in 0..6 {
        rig.cycle();
        if rig.bus.ready.val() == 1 {
            break;
        }
    }
    let mut pulses = 0u32;
    for val in [0xDEADu64, 0xBEEF, 0xCAFE, 0x1234] {
        rig.bus.from_master.set_next(val);
        rig.bus.strobe.set_next(1);
        rig.cycle();
        if rig.port_a.strobe_out.val() == 1 {
            pulses += 1;
        }
    }
    rig.bus.strobe.set_next(0);
    for _ in 0..6 {
        rig.cycle();
        if rig.port_a.strobe_out.val() == 1 {
            pulses += 1;
        }
    }
    assert_eq!(rig.port_a.port_out.val(), 0xDEADBEEFCAFE1234);
    assert_eq!(pulses, 1);
}

#[test]
fn test_bridge_is_synthesizable() {
    let mut uut: Bridge<16, 8, 6> = Bridge::new(["a", "b", "c", "d", "e", "f"]);
    uut.upstream.address.connect();
    uut.upstream.address_strobe.connect();
    uut.upstream.from_controller.connect();
    uut.upstream.strobe.connect();
    uut.upstream.clock.connect();
    uut.upstream.reset.connect();
    for ndx in 0..6 {
        uut.nodes[ndx].to_controller.connect();
        uut.nodes[ndx].ready.connect();
    }
    uut.connect_all().unwrap();
    let vlog = rust_hdl::verilog::generate_verilog(&uut);
    validate_structural("soc_bridge", &vlog).unwrap();
    assert_eq!(uut.ports().len(), 6);
}
