//! A line-oriented command interpreter for a small interactive fiction
//! engine.
//!
//! A line of the user is split into words (`text`), read by a table-driven
//! grammar into keywords and object names (`parser`, `grammar`), reduced to a
//! command (`command`) and carried out against the entities of a world
//! (`base`, `env`). `prompt` puts these steps together into one turn of the
//! interaction. `action` and `syntax` read the tokens of a line without a
//! world; `universe` holds entities that answer commands themselves.

pub mod action;
pub mod base;
pub mod command;
pub mod env;
pub mod grammar;
pub mod parser;
pub mod prompt;
pub mod syntax;
pub mod text;
pub mod universe;
