//! A verified core for turning a parsed C translation unit into a canonical,
//! serializable API registry.
//!
//! The pipeline: an external AST front end (kept outside this crate) hands the
//! library plain mirror values of its cursors; the mapper turns them into a
//! typed intermediate representation of C declarations; the namer resolves
//! every anonymous struct/union to a stable synthesized identifier; the
//! materializer classifies the rewritten declarations into the registry.

pub mod ast;
pub mod decl;
pub mod diag;
pub mod entity;
pub mod expr;
pub mod ident;
pub mod mapper;
pub mod materialize;
pub mod mcr;
pub mod metadata;
pub mod namer;
pub mod pctx;
pub mod platform;
pub mod rawtype;
pub mod registry;
pub mod text;
pub mod tok;
pub mod ty;
