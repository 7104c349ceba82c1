//! What the files around the sources say.

pub mod script_laws;
pub mod scripts;
pub mod segments;
pub mod tokenizer;
pub mod word_laws;
pub mod workspace;
