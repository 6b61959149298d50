//! Fixed-length arrays whose length is a generic parameter, with verified
//! construction, elementwise combinators and structural operations.

pub mod array;
pub mod functional;
pub mod sequence;
mod storage;
pub mod laws;
