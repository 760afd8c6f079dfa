//! A post-link packer for stack-machine bytecode modules.
//!
//! A contract toolchain produces a single module exporting a constructor
//! (`_create`) and a callable (`_call`).  This library rewrites a deployer
//! module so that its `_call` runs the constructor, embeds the serialized
//! runtime module as a data segment, and advertises the segment's position
//! and length through the 16-byte call descriptor.

pub mod builder;
pub mod codec;
pub mod eval;
pub mod logger;
pub mod module;
pub mod pack;
pub mod storage;
