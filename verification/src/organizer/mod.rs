pub mod category;
pub mod classifier;
pub mod duplicate;
pub mod relocator;
