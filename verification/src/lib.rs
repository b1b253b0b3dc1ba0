//! Runtime support for the Suji scripting language: variable scopes and
//! modules, the methods of strings, lists, maps and streams, the operators,
//! loop-label targeting, builtin name lookup, the environment-variable
//! overlay, the regex cache, shell-command safety and output handling, and
//! RNG seeding.

pub mod helpers;
pub mod text;
pub mod number_text;
pub mod str_ops;
pub mod string_methods;
pub mod error;
pub mod builtins;
pub mod shell;
pub mod assoc;
pub mod env_overlay;
pub mod env_map_methods;
pub mod regex_cache;
pub mod random_core;
pub mod env;
pub mod range;
pub mod map_methods;
pub mod list_methods;
pub mod list_closures;
pub mod stream_step;
pub mod binary_ops;
pub mod indexing;
pub mod module;
