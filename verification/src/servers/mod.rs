pub mod master;
pub mod worker;
