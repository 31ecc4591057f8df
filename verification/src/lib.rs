//! Source text for wrapper types that call Java classes through the native interface of the
//! virtual machine, generated from a description of the classes.
//!
//! The text of every definition is stated as a function of the description, and the
//! functions that write it are proved to write exactly that.

pub mod codegen;
pub mod ejni_types;
pub mod error;
pub mod ident;
pub mod layout;
pub mod models;
pub mod outside;
pub mod overload;
pub mod results;
pub mod text;
pub mod types;
pub mod units;
