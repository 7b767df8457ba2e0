//! A verified toolchain for the Jack/Hack platform: a Jack-to-VM compiler,
//! a VM-to-assembly translator, and a Hack assembler.

pub mod strutil;
pub mod textparse;
pub mod assembler;
pub mod compiler;
pub mod vm;
