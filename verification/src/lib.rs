//! A tiny assembler for a small x86-64 assembly dialect.
//!
//! The pipeline has four stages: the lexer turns source text into tokens,
//! the parser turns tokens into an instruction list, the encoder maps each
//! instruction to its machine-code bytes, and the object writer assembles an
//! ELF64 relocatable object around those bytes.

pub mod elf;
pub mod error;
pub mod lexer;
pub mod parser;
