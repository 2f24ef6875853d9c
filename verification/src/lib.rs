pub mod modules;
pub mod repository;
pub mod servers;
pub mod service;
pub mod services;
pub mod text;
pub mod ui;
pub mod utils;
