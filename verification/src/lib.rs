//! A clean, isolated build environment around an external LaTeX compiler.
//!
//! Input files are gathered as named byte buffers, run through a
//! binary-safe placeholder substitution pass (`##key##` tokens), staged
//! into an ephemeral working directory, and compiled in two passes by an
//! external tool such as `pdflatex`.
//!
//! This crate holds the verified core: the substitution engine, the
//! input set, path safety for staging, and the planning and result
//! classification of a build run. The thin shell that touches the file
//! system and spawns the compiler process lives outside the library and
//! drives it through these types.

pub mod compiler;
pub mod error;
pub mod input;
pub mod paths;
pub mod template;

pub use compiler::LatexCompiler;
pub use error::LatexError;
pub use input::LatexInput;
