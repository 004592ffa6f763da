//! Verified protocol encoders, parsers and kernel bookkeeping.
#![allow(unused_imports)]

pub mod bytes;
pub mod gpu;
pub mod kernel;
