//! Core logic of `almk`, a small build tool for C and C++ projects in the
//! manner of cargo: the manifest `Alumake.toml` and its dependency table,
//! the layout of a new project, the compiler and linker command lines, the
//! reading of compiler-written `.d` files, the content hashes behind
//! incremental builds, and the decisions of `almk sync`.
//!
//! Everything here is specified and proved with Verus; the program around
//! it (command line, files, processes, network) lives in `app/`.
pub mod text;
pub mod depfile;
pub mod table;
pub mod config;
pub mod hash;
pub mod paths;
pub mod compile;
pub mod command;
pub mod new;
pub mod sync;
pub mod record;
