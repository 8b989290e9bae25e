pub mod bindings;
pub mod config;
pub mod controllers;
pub mod db;
pub mod entity;
pub mod error;
pub mod middleware;
pub mod money;
pub mod services;
pub mod text;
