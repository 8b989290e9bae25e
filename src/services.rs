pub mod auth;
pub mod cart_service;
pub mod order_service;
pub mod product_service;
