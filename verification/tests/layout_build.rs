//! The layout builder: successful partitions, each refusal, and the
//! per-device physical offset accumulation across disjoint windows.

use tbo2::BuildError;
use tbo2::DevId;
use tbo2::Device;
use tbo2::LayoutBuilder;
use tbo2::RAM;
use tbo2::ROM;

#[test]
fn build_full_ram_space_round_trips_bytes() {
    let mut builder = LayoutBuilder::new(0x10000);
    let ram = builder.add_device(Device::Ram(RAM::new(0x10000)));
    builder.assign_range(0, 0x10000, ram);
    let mut layout = builder.build().expect("gapless partition");
    assert_eq!(layout.get_byte_count(), 0x10000);
    for (addr, value) in [(0usize, 0x55u8), (0x1234, 0xAB), (0x8000, 0x01), (0xFFFF, 0xFE)] {
        assert_eq!(layout.write(addr, value), Some(()));
        assert_eq!(layout.read(addr), Some(value));
    }
    let addr = 0x4321usize;
    for value in 0..=255u8 {
        assert_eq!(layout.write(addr, value), Some(()));
        assert_eq!(layout.read(addr), Some(value));
    }
}

#[test]
fn build_reports_first_unassigned_run() {
    let mut builder = LayoutBuilder::new(0x10000);
    let ram = builder.add_device(Device::Ram(RAM::new(0x10000)));
    builder.assign_range(0x0000, 0x8000, ram);
    match builder.build() {
        Err(BuildError::UnassignedRange(start, end)) => {
            assert_eq!(start, 0x8000);
            assert_eq!(end, 0x10000);
        },
        other => panic!("expected UnassignedRange, got {:?}", other.err()),
    }
}

#[test]
fn build_reports_gap_in_the_middle() {
    let mut builder = LayoutBuilder::new(0x100);
    let ram = builder.add_device(Device::Ram(RAM::new(0x100)));
    builder.assign_range(0x00, 0x40, ram);
    builder.assign_range(0x80, 0x80, ram);
    match builder.build() {
        Err(BuildError::UnassignedRange(start, end)) => {
            assert_eq!(start, 0x40);
            assert_eq!(end, 0x80);
        },
        other => panic!("expected UnassignedRange, got {:?}", other.err()),
    }
}

#[test]
fn build_rejects_range_past_the_space() {
    let mut builder = LayoutBuilder::new(0x10000);
    let ram = builder.add_device(Device::Ram(RAM::new(0x10000)));
    builder.assign_range(0xFF00, 0x200, ram);
    match builder.build() {
        Err(BuildError::VirtualAddressOutOfRange(start, cnt)) => {
            assert_eq!(start, 0xFF00);
            assert_eq!(cnt, 0x200);
        },
        other => panic!("expected VirtualAddressOutOfRange, got {:?}", other.err()),
    }
}

#[test]
fn build_rejects_unregistered_handle() {
    let mut builder = LayoutBuilder::new(0x100);
    let _ram = builder.add_device(Device::Ram(RAM::new(0x100)));
    builder.assign_range(0, 0x100, DevId(7));
    match builder.build() {
        Err(BuildError::InvalidMemoryId(id)) => assert_eq!(id, DevId(7)),
        other => panic!("expected InvalidMemoryId, got {:?}", other.err()),
    }
}

#[test]
fn build_rejects_overlapping_assignment() {
    let mut builder = LayoutBuilder::new(0x100);
    let ram = builder.add_device(Device::Ram(RAM::new(0x100)));
    let rom = builder.add_device(Device::Rom(ROM::new(0x100)));
    builder.assign_range(0x00, 0x80, ram);
    builder.assign_range(0x70, 0x90, rom);
    match builder.build() {
        Err(BuildError::OverlappingRange(start, cnt)) => {
            assert_eq!(start, 0x70);
            assert_eq!(cnt, 0x90);
        },
        other => panic!("expected OverlappingRange, got {:?}", other.err()),
    }
}

#[test]
fn build_rejects_assignment_past_device_capacity() {
    let mut builder = LayoutBuilder::new(0x200);
    let small = builder.add_device(Device::Ram(RAM::new(0x100)));
    builder.assign_range(0, 0x200, small);
    match builder.build() {
        Err(BuildError::MemoryOutOfRange(id)) => assert_eq!(id, small),
        other => panic!("expected MemoryOutOfRange, got {:?}", other.err()),
    }
}

#[test]
fn disjoint_windows_share_one_contiguous_device_space() {
    // One 0x20-byte RAM seen through two disjoint 0x10-byte windows: the
    // second window's physical offset continues where the first ended.
    let mut ram = RAM::new(0x20);
    let image: Vec<u8> = (0u8..0x20).collect();
    ram.load_bytes(0, &image);
    let mut builder = LayoutBuilder::new(0x40);
    let ram = builder.add_device(Device::Ram(ram));
    let rom = builder.add_device(Device::Rom(ROM::new(0x20)));
    builder.assign_range(0x00, 0x10, ram);
    builder.assign_range(0x10, 0x10, rom);
    builder.assign_range(0x20, 0x10, ram);
    builder.assign_range(0x30, 0x10, rom);
    let mut layout = builder.build().expect("gapless partition");
    assert_eq!(layout.read(0x00), Some(0x00));
    assert_eq!(layout.read(0x0F), Some(0x0F));
    // The second RAM window starts at physical 0x10, not 0x00.
    assert_eq!(layout.read(0x20), Some(0x10));
    assert_eq!(layout.read(0x2F), Some(0x1F));
}

#[test]
fn rom_write_is_refused_and_contents_unchanged() {
    let mut rom = ROM::new(0x100);
    rom.load_bytes(0x10, &[0xAA, 0xBB]);
    let mut builder = LayoutBuilder::new(0x100);
    let rom = builder.add_device(Device::Rom(rom));
    builder.assign_range(0, 0x100, rom);
    let mut layout = builder.build().expect("gapless partition");
    assert_eq!(layout.read(0x10), Some(0xAA));
    assert_eq!(layout.write(0x10, 0x42), None);
    assert_eq!(layout.read(0x10), Some(0xAA));
    assert_eq!(layout.read(0x11), Some(0xBB));
}

#[test]
fn assign_single_address() {
    let mut builder = LayoutBuilder::new(0x2);
    let ram = builder.add_device(Device::Ram(RAM::new(0x2)));
    builder.assign(0, ram);
    builder.assign(1, ram);
    let mut layout = builder.build().expect("gapless partition");
    assert_eq!(layout.write(1, 0x99), Some(()));
    assert_eq!(layout.read(1), Some(0x99));
}
