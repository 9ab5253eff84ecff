pub mod category_service;
mod clock;
pub mod config;
pub mod customer_service;
pub mod dtos;
pub mod error;
pub mod laws;
pub mod model;
pub mod order_service;
pub mod product_service;
pub mod queries;
pub mod shipment_service;
pub mod stock;
pub mod store;
pub mod supplier_service;
