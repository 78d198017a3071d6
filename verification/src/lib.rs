//! Compiles a Hermitfile, the manifest of a sandboxed WebAssembly module,
//! and assembles the module's polyglot executable: a native stub followed
//! by an archive that holds the serialized manifest and the module's bytes.
//!
//! The way from text to executable, and the module that takes each step:
//!
//! - [`syntax`] has the text tokenized and reads the result out into
//!   [`statement`]s, which [`statement`] interprets as [`directive`]s, with
//!   [`array`] for the operands of the list directives;
//! - [`compile`] applies the directives and validates the result, a
//!   [`manifest`], with [`path`] for the module reference, [`mapping`] for
//!   the mappings and [`env`] for the environment;
//! - [`frontend`] runs these steps on a manifest's text;
//! - [`record`] serializes a manifest;
//! - [`donor`] finds the stub in a donor executable, and [`assemble`]
//!   splices stub, manifest and module into the output, both through
//!   [`archive`];
//! - [`cli`] reads the command line, [`error`] names the failures, and
//!   [`text`] holds the helpers on strings.
//!
//! Nothing here reads a file, the environment or the clock: callers hand
//! over what they read and write out what they get.

pub mod archive;
pub mod array;
pub mod assemble;
pub mod cli;
pub mod compile;
pub mod directive;
pub mod donor;
pub mod env;
pub mod error;
pub mod frontend;
pub mod manifest;
pub mod mapping;
pub mod path;
pub mod record;
pub mod statement;
pub mod syntax;
pub mod text;
