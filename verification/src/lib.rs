//! A verified reader of security-protocol theories.

pub mod actions;
pub mod ast;
pub mod attrs;
pub mod basics;
pub mod cli;
pub mod command;
pub mod comments;
pub mod debug;
pub mod definitions;
pub mod error;
pub mod facts;
pub mod flags;
pub mod formulas;
pub mod functions;
pub mod goals;
pub mod items;
pub mod json;
pub mod laws;
pub mod lemmas;
pub mod lexer;
pub mod lists;
pub mod model;
pub mod names;
pub mod operators;
pub mod order;
pub mod parser;
pub mod paths;
pub mod places;
pub mod processes;
pub mod proof_diagnostics;
pub mod proofs;
pub mod rules;
pub mod scopes;
pub mod signature;
pub mod state;
pub mod subst;
pub mod tactics;
pub mod terms;
pub mod text;
pub mod theory;
pub mod tokens;
pub mod values;
pub mod vars;
