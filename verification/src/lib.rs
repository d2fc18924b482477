//! Early boot support for a freestanding kernel: decoding of the Multiboot2
//! boot information and a bump allocator for physical frames.

pub mod bytes;
pub mod memory;
pub mod multiboot;
pub mod vga_text;
