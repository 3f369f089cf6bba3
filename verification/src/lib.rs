//! Inspection of compiled executable/object containers: a uniform
//! segment/container model, format probing, virtual-address/file-offset
//! translation, byte-range extraction, and a relocation codec for
//! pointer-sized, 32-bit and ARM64 instruction-encoded references.

pub mod vma;
pub mod container;
pub mod reloc;
pub mod strutil;
pub mod translate;
pub mod dump;
pub mod raw_binary;
pub mod probe;
