//! A CHIP-8 interpreter core: memory, registers, timers, a monochrome
//! framebuffer and a sixteen-key input latch, stepped one instruction at a
//! time.
pub mod chip8;
pub mod keyboard;
pub mod model;
pub mod pixel;
pub mod theorems;
