//! Emulator core for an 8-bit 6502-class microprocessor.
//!
//! The crate is split into the opcode decoder (`inst`), the processor
//! status word (`flags`), the memory-mapped devices (`device`), the
//! address-space layout that routes bus traffic to the devices
//! (`layout`), and the execution engine itself (`cpu`). Decimal mode is
//! tracked as a flag but not interpreted: all arithmetic is binary.
//! Undocumented opcodes are not modelled, and `step` executes one
//! instruction to completion with no mid-instruction suspension.

pub mod cpu;
pub mod device;
pub mod flags;
pub mod inst;
pub mod layout;

pub use cpu::ExecutionError;
pub use cpu::Register;
pub use cpu::CPU;
pub use device::Device;
pub use device::SerialIO;
pub use device::RAM;
pub use device::ROM;
pub use flags::Status;
pub use inst::decode_inst;
pub use inst::AddressingMode;
pub use inst::Inst;
pub use layout::BuildError;
pub use layout::DevId;
pub use layout::Layout;
pub use layout::LayoutBuilder;
