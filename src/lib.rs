//! Decoding of trace value trees into typed data, with every decision proved.
pub mod value;
pub mod error;
pub mod numeric;
pub mod decode;
pub mod tagged;
pub mod directives;
pub mod reflect;
pub mod laws;
pub mod contract;
