//! A CHIP-8 interpreter core: memory, registers, call stack, timers, a
//! monochrome framebuffer and a keypad, driven one instruction at a time.
pub mod cpu;
pub mod display;
pub mod machine;
pub mod laws;
