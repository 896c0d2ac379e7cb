//! A verified decoder and interpreter for a small binary module format.

pub mod cursor;
pub mod decoder;
pub mod error;
pub mod text;
pub mod types;
pub mod varint;
pub mod vm;

pub use cursor::Cursor;
pub use decoder::CWasm;
pub use error::WasmError;
pub use types::{Export, ExportDesc, FunctionSig, SectionID, ValueType};
pub use vm::{VM, Value};
