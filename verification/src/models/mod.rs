pub mod product;
pub mod user;
