pub mod path;
pub mod selector;
