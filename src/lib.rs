pub mod qemu_opt;
pub mod text;
pub mod number;
pub mod options;
pub mod error;
pub mod rand;
pub mod corpus;
pub mod mutators;
pub mod scheduled;
pub mod encoded;
pub mod tokenizer;
