//! A small virtual machine for a stack-based bytecode language.
//!
//! A program is a sequence of [`opcodes::OpCode`]s. The machine
//! ([`vm::Vm`]) executes it on three pieces of state that every invocation
//! shares: an operand stack ([`stack::Stack`]), a heap that only grows at
//! its end ([`heap::Heap`]) and a fixed number of variable slots
//! ([`store::Store`]). A mark-and-sweep collector ([`gc::gc`]) reclaims the
//! heap values that neither the stack nor the store reaches.
//!
//! What one instruction does is defined in [`effect`], how instructions
//! follow each other in [`vm`], and the binary form of programs in
//! [`decode`]. [`laws`] holds what follows from these definitions for every
//! state and every program of a given shape, [`text`] how values are shown,
//! and [`workload`] an allocation workload to put the collector under.

pub mod decode;
pub mod effect;
pub mod error;
pub mod fields;
pub mod gc;
pub mod heap;
pub mod laws;
pub mod opcodes;
pub mod stack;
pub mod store;
pub mod text;
pub mod value;
pub mod vm;
pub mod workload;
