use vstd::prelude::*;

pub mod gobjects;
pub mod imports;
pub mod library;
pub mod name_map;
pub mod namespaces;
pub mod nameutil;
pub mod text;
pub mod toml_value;
pub mod version;
