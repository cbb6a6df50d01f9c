//! Lowers a flat, address-indexed IR into FASM assembly text for x86-64 Linux.
pub mod digits;
pub mod fasm;
pub mod ir;
pub mod laws;

pub use fasm::{
    generate_data_section, generate_extrns, generate_function, generate_funcs, generate_program,
    load_arg_to_reg,
};
pub use ir::{Arg, CodegenError, Func, Op, Program};
