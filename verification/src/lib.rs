//! Calx: a small stack-based bytecode virtual machine.
//!
//! The crate models runtime values, instructions, call frames and the
//! dispatch loop of the machine, with contracts on every operation.

pub mod err;
pub mod float;
pub mod frame;
pub mod instr;
pub mod ops;
pub mod text;
pub mod value;
pub mod vm;

pub use err::CalxError;
pub use err::CalxErrorKind;
pub use err::CalxIndexSpace;
pub use frame::CalxBlock;
pub use frame::CalxFrame;
pub use instr::CalxFunc;
pub use instr::CalxInstr;
pub use value::Calx;
pub use value::CalxModel;
pub use value::CalxType;
pub use vm::CalxImport;
pub use vm::CalxVM;
pub use vm::StepOut;
