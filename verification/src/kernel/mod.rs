//! The kernel entry point that the boot stage hands over to.
pub mod kernel;
