//! A translator from the stack language of a virtual machine to the
//! assembly language of its target machine. A line of source text is split
//! into tokens, the tokens of a line are parsed into a command, and each
//! command is written as assembly text.

pub mod decimal;
pub mod parser;
pub mod symbol_table;
pub mod tokenizer;
pub mod vm;
pub mod words;
pub mod writer;
