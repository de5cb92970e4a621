//! Helpers for scaffolding new contract projects from packaged templates:
//! hex decoding, placeholder substitution, template member planning, path
//! components and the decisions around invoking the cargo build tool.

pub mod cargo;
pub mod channel;
pub mod hexcode;
pub mod paths;
pub mod placeholder;
pub mod template;
