pub mod ai;
pub mod cli;
pub mod directory;
pub mod inspect;
pub mod naming;
pub mod organizer;
pub mod paths;
pub mod text;
pub mod undo;
