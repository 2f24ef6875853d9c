pub mod runner;
pub mod worker;
