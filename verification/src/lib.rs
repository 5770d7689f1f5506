//! Code generator for a virtual machine whose only instruction copies one
//! byte and jumps: build a fixed-size memory image, install the lookup
//! tables that make immediate loads and increments expressible, synthesize
//! higher-level operations as chains of that single instruction, and export
//! the image with its trailing zeros trimmed.

pub mod error;
pub mod image;
pub mod machine;
pub mod rom_builder;
pub mod rom_opcodes;
pub mod video;
