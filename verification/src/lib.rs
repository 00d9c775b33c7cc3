//! A CHIP-8 virtual machine: memory, registers, the fetch-decode-execute
//! engine, the framebuffer and the pacing rules of its scheduler.

pub mod fontset;
pub mod display;
pub mod instruction;
pub mod graphics;
pub mod model;
pub mod cpu;
pub mod timing;
pub mod rom_loader;
pub mod laws;
mod entropy;
