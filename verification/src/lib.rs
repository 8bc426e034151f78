//! Compiles a declarative description of a command-line argument schema into
//! the ordered list of builder invocations that constructs its parser.
//!
//! A schema is a list of items: options bags, whose fields are arguments, and
//! command sets, whose variants are subcommands. A front end hands it over as
//! plain data (`model`), together with a snapshot of the environment.
//! [`compile`] resolves the attributes of every item and member (`attrs`),
//! classifies the declared types (`types`), resolves the conversion of every
//! argument (`parser`, `member`), expands the subcommand carriers into the
//! command sets they host (`scope`, `builder`) and emits the invocations
//! (`emit`); [`clap_app`] writes them out as code (`render`). The first fault
//! ends a compilation (`error`). A declaration that is read alone, as a
//! derive reads it, gets its schema from `declaration`, and its code hands
//! over to the types that host its command sets. What holds of every schema
//! is stated and proved in `laws`.

pub mod attrs;
pub mod builder;
pub mod declaration;
pub mod directives;
pub mod emit;
pub mod error;
pub mod laws;
pub mod member;
pub mod model;
pub mod parser;
pub mod render;
pub mod scope;
pub mod text;
pub mod types;

pub use crate::builder::compile;
pub use crate::render::clap_app;
