//! Core library of a command-line template renderer: an RGB(A) color model
//! with hex parsing and formatting, a self-embedding codec that wraps template
//! source in a delimited base64 capsule, composition of template contexts from
//! exported bindings, and the pure parts of the template-callable diagnostic
//! functions.

pub mod codec;
pub mod color;
pub mod context;
pub mod diag;
pub mod term;
