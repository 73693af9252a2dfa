//! Drives a prompt-delimited interactive text program: frames its raw output
//! into turns, coordinates shutdown, and serialises command/response exchanges.

pub mod adapter;
pub mod console;
pub mod frame;
pub mod framer;
pub mod session;
pub mod text;
pub mod toggle;
