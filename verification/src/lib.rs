//! Directory-to-namespace asset embedding, and the tools around it.
//!
//! The core turns a directory into generated source text. A filter, made
//! of glob patterns, says which files are embedded and whether as text or
//! as bytes (`filter`, `config`, `declaration`). The directory comes as a
//! listing, which is put in order by name (`listing`, `order`) and walked
//! into a tree of namespaces and constants whose names are valid
//! identifiers (`walk`, `namespace`, `ident`). The tree is written out as
//! nested modules (`emit`).
//!
//! Beside the core stand the models of the Rust tools and of their
//! command lines (`rust`, `cargo`, `rustc`, `rustup`, `version`, `args`,
//! `app`, `process`, `command`), of localised texts (`attrs`, `i18n`) and
//! of colours (`color`, `index`), and a few helpers (`text`, `utils`,
//! `langs`).

pub mod text;
pub mod order;
pub mod ident;
pub mod filter;
pub mod config;
pub mod namespace;
pub mod emit;
pub mod syntax;
pub mod declaration;
pub mod listing;
pub mod walk;

pub mod args;
pub mod app;
pub mod rust;
pub mod cargo;
pub mod rustc;
pub mod rustup;
pub mod version;
pub mod process;
pub mod command;

pub mod attrs;
pub mod i18n;
pub mod color;
pub mod index;
pub mod langs;
pub mod utils;
