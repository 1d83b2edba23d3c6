//! A bridge between a host program and an embedded scripting runtime: a
//! value model, a pretty printer, a module registry, a plugin registry and a
//! shared configuration record.
pub mod config;
pub mod error;
pub mod lua;
pub mod modules;
pub mod plugin;
pub mod prettify;
pub mod runtime;
pub mod text;
pub mod value;

pub use crate::plugin::Plugins;
pub use crate::prettify::pformat;
pub use crate::prettify::Prettify;
pub use crate::runtime::Import;
pub use crate::runtime::LuaExt;
pub use crate::runtime::Require;
