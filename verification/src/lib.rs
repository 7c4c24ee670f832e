//! A tokenizer for strings in the shape of a URL.
//!
//! An input is split into tokens on `/`. Where the tokens have the shape of a
//! URL, that is a protocol, an empty token and at least one more, the
//! protocol, host, directories, file name and suffix are taken from them.
//! Whatever their shape, every token is broken down into granular tokens,
//! which are runs of alphanumeric characters and single other characters,
//! and each granular token is put into one of four categories.
//!
//! - [`tokenizer`] holds the functions and the record of a result;
//! - [`str_checker`] holds the character classes;
//! - [`render`] writes lists of tokens as text;
//! - [`model`] says what all of them compute, over sequences of characters;
//! - [`laws`] proves what holds of the model for every input;
//! - [`lemmas`] and [`scan`] hold the steps of the proofs.

pub mod laws;
pub mod lemmas;
pub mod model;
pub mod render;
pub mod scan;
pub mod str_checker;
pub mod tokenizer;
