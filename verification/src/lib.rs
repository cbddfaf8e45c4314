//! The front end of the Circe compiler.
//!
//! Circe programs are written in two languages. The high-level language is
//! made of commands in plain words, of procedures (`howto … - …`) and of
//! facts (`whatis … - …`). The low-level language assigns to variables and
//! calls back into the high-level language. Each can hold text of the other:
//! a procedure may hold a low-level block between `-*` and `-*`, and a
//! low-level block may hold a high-level command between `<` and `>`.
//!
//! A source goes through these stages:
//!
//! - [`stream`] decodes bytes into characters and keeps track of the
//!   position;
//! - [`ast`] lexes and parses the high-level language, and has the low-level
//!   blocks parsed by [`lowlevel`];
//! - [`infer_ast`] lowers the parse trees into one program tree, parsing the
//!   high-level commands inside low-level blocks on the way;
//! - [`infer`] gathers the program and runs deduction over it.
//!
//! Every stage is specified by functions over sequences of characters and
//! over the models of its trees, and the code is proved to compute them.
//!
//! Beside the stages stand [`scan`] and [`chars`], which both lexers are
//! built on, [`text`], a cursor over decoded text, [`hash`] and [`db`], the
//! content hashes and the lookup store for fragments, [`register`], the
//! registers of the machine, and [`llast`], which reads low-level blocks
//! written in the host language.

pub mod ast;
pub mod chars;
pub mod db;
pub mod hash;
pub mod infer;
pub mod infer_ast;
pub mod llast;
pub mod lowlevel;
pub mod register;
pub mod scan;
pub mod stream;
pub mod text;
