//! A verified core for the classic 35-opcode 8-bit virtual machine:
//! machine state, instruction decoding, the fetch-decode-execute step,
//! and the timer tick. Rendering, input and pacing are left to a driver.

pub mod decode;
pub mod emulator;
pub mod laws;
pub mod semantics;

pub use decode::Instr;
pub use emulator::Emulator;
pub use semantics::EmuError;
pub use semantics::EmuView;
pub use semantics::StepOutcome;
