use rust_hdl::analysis::check_connected;
use rust_hdl::block::Block;
use rust_hdl::sim::run_cycle;
use rust_hdl::verilog::{generate_verilog, validate_structural};
use rust_hdl::widgets::i2c_bus::{I2CBusDriver, I2CBusReceiver};
use rust_hdl::widgets::i2c_target::{I2CTarget, I2C_IDLE, I2C_START};
use rust_hdl::widgets::open_drain::OpenDrainBuffer;

#[test]
fn test_i2c_target_connects_and_synthesizes() {
    let mut uut = I2CTarget::default();
    uut.sda.connect();
    uut.scl.connect();
    uut.clock.connect();
    uut.active.connect();
    uut.to_bus.connect();
    uut.write_enable.connect();
    uut.connect_all().unwrap();
    check_connected(&uut).unwrap();
    let vlog = generate_verilog(&uut);
    validate_structural("i2c_target", &vlog).unwrap();
}

#[test]
fn test_i2c_target_sees_start_condition() {
    let mut uut = I2CTarget::default();
    // both lines released high, then data falls while the clock stays high
    uut.sda.set_next(1);
    uut.scl.set_next(1);
    for _ in 0..2 {
        run_cycle(&mut uut, 64).unwrap();
    }
    assert_eq!(uut.state.q.val(), I2C_IDLE);
    uut.sda.set_next(0);
    for _ in 0..3 {
        run_cycle(&mut uut, 64).unwrap();
    }
    assert_eq!(uut.state.q.val(), I2C_START);
    // update is idempotent on the target as well
    uut.update();
    let once = (uut.state.d.next, uut.accum.d.next, uut.stop.next);
    uut.update();
    assert_eq!((uut.state.d.next, uut.accum.d.next, uut.stop.next), once);
}

#[test]
fn test_open_drain_buffer_pulls_low() {
    let mut b = OpenDrainBuffer::default();
    b.bus.set_next(1);
    b.enable.set_next(0);
    b.commit();
    b.update();
    b.commit();
    assert_eq!(b.read_data.val(), 1);
    b.enable.set_next(1);
    b.commit();
    b.update();
    b.commit();
    assert_eq!(b.read_data.val(), 0);
    assert_eq!(b.bus.val(), 0);
    let _ = I2CBusDriver::default();
    let _ = I2CBusReceiver::default();
}
