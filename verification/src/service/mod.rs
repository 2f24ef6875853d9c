pub mod hash;
pub mod repository;
pub mod ui;
pub mod worker;
