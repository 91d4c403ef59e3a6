//! A small stack-based virtual CPU with a port-mapped device bus, and the
//! assembler that turns its symbolic source language into a memory image.
//!
//! The assembler is a pipeline: [`parse`] reads source text into items,
//! [`tal`] expands macros, resolves labels to addresses and emits the image.
//! The machine is a [`cpu`] that executes one instruction at a time against
//! the memory and the I/O page of the bus in [`varvara`], which tells the
//! [`system`], [`console`] and [`screen`] devices of every write to one of
//! their ports. [`opcode`] holds the instruction encoding that both sides
//! share, and [`error`] the ways in which either can fail.
//!
//! Nothing here reads a file, prints, or opens a window. The console queues
//! what a program writes, and the screen is a buffer of pixels: whoever
//! drives the machine prints the one and shows the other.

pub mod console;
pub mod cpu;
pub mod error;
pub mod opcode;
pub mod parse;
pub mod screen;
pub mod system;
pub mod tal;
pub mod varvara;
