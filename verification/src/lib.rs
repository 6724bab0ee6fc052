//! A micro virtual machine that executes a minimal instruction set directly on
//! a 2D grid of bit-packed 16-bit cells ("atoms"). An atom's position, type and
//! directional links to its neighbours together encode a program; many light
//! execution contexts ("VMs") walk and rewrite the bonded graph concurrently
//! under an external driver.

pub mod dirs;
pub mod atom;
pub mod world;
pub mod mov;
pub mod chain;
pub mod cfg;
pub mod pool;
pub mod vm;
