pub mod name_map;
pub mod scope_checker;
pub mod type_checker;
pub mod types;
