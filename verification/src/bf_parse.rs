//! The virtual machine: instruction set, arena model, loader and stepping.

pub mod brackets;
pub mod laws;
pub mod machine;
pub mod model;
pub mod nesting;
pub mod opcode;
pub mod render;
pub mod text;

pub use self::machine::BfInterpret;
pub use self::model::BuildError;
pub use self::model::StepError;
pub use self::opcode::OpCode;
pub use self::opcode::Operation;
