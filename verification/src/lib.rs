//! Lowering of a typed intermediate representation to x86-64 assembly text.
//!
//! The back end has no register allocator. An operand is lowered into one of
//! two scratch registers, chosen by the side of the instruction on which it
//! stands; an instruction is a fixed sequence of native instructions around
//! its lowered operands; the arguments of a call go into the argument
//! registers of the calling convention and, once these are taken, on the
//! stack.
//!
//! - [`types`] and [`ir`] hold what is lowered: types with their layout,
//!   operands, instructions.
//! - [`ir_to_as`] lowers operands and instructions, [`x86`] places call
//!   arguments.
//! - [`lowering`] says what lowering does to the buffers of a unit,
//!   [`lines`] and [`text`] what the emitted text is.
//! - [`laws`] states what holds of all of it.

pub mod error;
pub mod ir;
pub mod ir_to_as;
pub mod laws;
pub mod lines;
pub mod lowering;
pub mod text;
pub mod types;
pub mod x86;
