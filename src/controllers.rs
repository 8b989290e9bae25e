pub mod cart;
pub mod product;
pub mod user;
