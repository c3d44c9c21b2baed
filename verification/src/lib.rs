//! Runtime values of a WebAssembly interpreter and the conversions and
//! arithmetic that the interpreter performs on them.

pub mod bytes;
pub mod endian;
pub mod value;
pub mod convert;
pub mod arith;

pub use arith::{ArithmeticOps, Float, Integer};
pub use convert::{ExtendInto, TransmuteInto, TryTruncateInto, WrapInto};
pub use endian::LittleEndianConvert;
pub use value::{Error, RuntimeValue, TryInto, VariableType};
