pub mod archive;
pub mod checks;
pub mod contract;
pub mod fixtures;
pub mod manager;
pub mod outcome;
pub mod process;
pub mod search;
