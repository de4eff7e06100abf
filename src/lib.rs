pub mod catalog;
pub mod cli;
pub mod delegate;
pub mod error;
pub mod generation;
pub mod order;
