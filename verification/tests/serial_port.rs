//! The serial port device: its two queues, seen from the host side and
//! from the bus side, and its place in a layout.

use tbo2::Device;
use tbo2::LayoutBuilder;
use tbo2::SerialIO;
use tbo2::CPU;
use tbo2::RAM;

#[test]
fn serial_input_queue_is_first_in_first_out() {
    let mut port = SerialIO::new();
    assert_eq!(port.on_read(0), None);
    port.push_input(0x41);
    port.push_input(0x42);
    assert_eq!(port.on_read(0), Some(0x41));
    assert_eq!(port.on_read(5), Some(0x42));
    assert_eq!(port.on_read(0), None);
}

#[test]
fn serial_output_queue_is_first_in_first_out() {
    let mut port = SerialIO::new();
    assert_eq!(port.pop_output(), None);
    assert_eq!(port.on_write(0, 0x68), Some(()));
    assert_eq!(port.on_write(9, 0x69), Some(()));
    assert_eq!(port.pop_output(), Some(0x68));
    assert_eq!(port.pop_output(), Some(0x69));
    assert_eq!(port.pop_output(), None);
}

#[test]
fn serial_reset_drops_both_queues() {
    let mut port = SerialIO::new();
    port.push_input(0x01);
    port.on_write(0, 0x02).unwrap();
    port.on_reset();
    assert_eq!(port.on_read(0), None);
    assert_eq!(port.pop_output(), None);
}

#[test]
fn serial_in_a_layout_refuses_reads_when_idle() {
    // RAM everywhere but a serial window; reading the idle port is a
    // refused access, absorbed by the engine as 0.
    let mut ram = RAM::new(0x10000);
    // The RAM's second window starts at virtual 0x5004 with physical
    // offset 0x5000, so the reset vector at virtual 0xFFFC sits at
    // physical 0xFFF8.
    ram.load_bytes(0xFFF8, &[0x00, 0x02]);
    let mut builder = LayoutBuilder::new(0x10000);
    let port = builder.add_device(Device::Serial(SerialIO::new()));
    let ram = builder.add_device(Device::Ram(ram));
    builder.assign_range(0x0000, 0x5000, ram);
    builder.assign_range(0x5000, 0x0004, port);
    builder.assign_range(0x5004, 0xAFFC, ram);
    let mut cpu = CPU::new(builder.build().expect("gapless partition")).expect("full 64K space");
    cpu.reset();
    assert_eq!(cpu.read_byte(0x5000), 0x00);
    // A write to the port is accepted (it queues the byte for the host).
    cpu.write_byte(0x5001, 0x21);
    // The RAM around the window is untouched by port traffic.
    cpu.write_byte(0x4FFF, 0x11);
    cpu.write_byte(0x5004, 0x22);
    assert_eq!(cpu.read_byte(0x4FFF), 0x11);
    assert_eq!(cpu.read_byte(0x5004), 0x22);
}
