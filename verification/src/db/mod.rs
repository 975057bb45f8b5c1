pub mod products;
