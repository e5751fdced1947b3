//! Version-manager core logic: shells, registry, runtimes and plugins.

pub mod app_rules;
pub mod core_model;
pub mod external;
pub mod html;
pub mod installer;
pub mod legacy;
pub mod lua;
pub mod lua_strings;
pub mod model;
pub mod order;
pub mod paths;
pub mod plugin;
pub mod registry;
pub mod release;
pub mod shell;
pub mod text;
pub mod tools;
pub mod versions;
