//! A verified driver for a legacy text-mode display: a fixed 25x80 grid of
//! colored character cells, written through a stateful `Writer` that handles
//! cursor advancement, line wrapping, scroll-on-overflow, and substitution of
//! unprintable bytes.

pub mod color;
pub mod vga_buffer;
