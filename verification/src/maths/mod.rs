//! Numbers as the library reads them.

pub mod scalar;
