//! Request and response shapes of the API surface.
//!
//! Create/update requests carry plain values: money in minor currency
//! units, instants as Unix timestamps, dates as day numbers. Update
//! requests are patches: a field left `None` keeps the stored value.

use vstd::prelude::*;

verus! {

pub struct CategoryCreate {
    pub name: String,
    pub description: Option<String>,
}

pub struct CategoryUpdate {
    pub name: Option<String>,
    pub description: Option<String>,
}

pub struct CategoryResponse {
    pub category_id: i32,
    pub name: String,
    pub description: Option<String>,
}

pub struct CustomerCreate {
    pub first_name: String,
    pub last_name: String,
    pub email: String,
    pub phone: Option<String>,
    pub address: Option<String>,
}

pub struct CustomerUpdate {
    pub first_name: Option<String>,
    pub last_name: Option<String>,
    pub email: Option<String>,
    pub phone: Option<String>,
    pub address: Option<String>,
}

pub struct CustomerResponse {
    pub customer_id: i32,
    pub first_name: String,
    pub last_name: String,
    pub email: String,
    pub phone: Option<String>,
    pub registration_date: i64,
    pub address: Option<String>,
}

pub struct SupplierCreate {
    pub company_name: String,
    pub contact_name: Option<String>,
    pub email: Option<String>,
    pub phone: Option<String>,
    pub address: Option<String>,
}

pub struct SupplierUpdate {
    pub company_name: Option<String>,
    pub contact_name: Option<String>,
    pub email: Option<String>,
    pub phone: Option<String>,
    pub address: Option<String>,
}

pub struct SupplierResponse {
    pub supplier_id: i32,
    pub company_name: String,
    pub contact_name: Option<String>,
    pub email: Option<String>,
    pub phone: Option<String>,
    pub address: Option<String>,
}

pub struct ProductCreate {
    pub name: String,
    pub description: Option<String>,
    pub price: u64,
    pub stock_quantity: i32,
    pub category_id: i32,
    pub supplier_id: i32,
}

pub struct ProductUpdate {
    pub name: Option<String>,
    pub description: Option<String>,
    pub price: Option<u64>,
    pub stock_quantity: Option<i32>,
    pub category_id: Option<i32>,
    pub supplier_id: Option<i32>,
}

pub struct ProductResponse {
    pub product_id: i32,
    pub name: String,
    pub description: Option<String>,
    pub price: u64,
    pub stock_quantity: i32,
    pub category_id: i32,
    pub supplier_id: i32,
    pub category_name: Option<String>,
    pub supplier_name: Option<String>,
}

/// One requested order line: the product, the quantity to sell, and the
/// unit price to snapshot onto the stored item row.
#[derive(Clone, Copy, PartialEq, Eq, Structural)]
pub struct OrderItemCreate {
    pub product_id: i32,
    pub quantity: i32,
    pub unit_price: u64,
}

pub struct OrderItemResponse {
    pub order_id: i32,
    pub product_id: i32,
    pub quantity: i32,
    pub unit_price: u64,
    pub product_name: Option<String>,
}

pub struct OrderCreate {
    pub customer_id: i32,
    pub status: Option<String>,
    pub total_amount: u64,
    pub shipping_address: String,
    pub items: Vec<OrderItemCreate>,
}

pub struct OrderUpdate {
    pub status: Option<String>,
    pub total_amount: Option<u64>,
    pub shipping_address: Option<String>,
    pub items: Option<Vec<OrderItemCreate>>,
}

pub struct OrderResponse {
    pub order_id: i32,
    pub customer_id: i32,
    pub order_date: i64,
    pub status: String,
    pub total_amount: u64,
    pub shipping_address: String,
    pub customer_name: Option<String>,
}

pub struct OrderDetailsResponse {
    pub order_id: i32,
    pub customer_id: i32,
    pub order_date: i64,
    pub status: String,
    pub total_amount: u64,
    pub shipping_address: String,
    pub customer_name: Option<String>,
    pub items: Vec<OrderItemResponse>,
}

/// One requested shipment line: the product, the quantity received, and
/// the unit cost to snapshot onto the stored item row.
#[derive(Clone, Copy, PartialEq, Eq, Structural)]
pub struct ShipmentItemCreate {
    pub product_id: i32,
    pub quantity: i32,
    pub unit_cost: u64,
}

pub struct ShipmentItemResponse {
    pub shipment_id: i32,
    pub product_id: i32,
    pub quantity: i32,
    pub unit_cost: u64,
    pub product_name: Option<String>,
}

pub struct ShipmentCreate {
    pub supplier_id: i32,
    pub shipment_date: i64,
    pub expected_delivery_date: i64,
    pub status: Option<String>,
    pub total_cost: u64,
    pub items: Vec<ShipmentItemCreate>,
}

pub struct ShipmentUpdate {
    pub status: Option<String>,
    pub expected_delivery_date: Option<i64>,
    pub total_cost: Option<u64>,
    pub items: Option<Vec<ShipmentItemCreate>>,
}

pub struct ShipmentResponse {
    pub shipment_id: i32,
    pub supplier_id: i32,
    pub shipment_date: i64,
    pub expected_delivery_date: i64,
    pub status: String,
    pub total_cost: u64,
    pub supplier_name: Option<String>,
}

pub struct ShipmentDetailsResponse {
    pub shipment_id: i32,
    pub supplier_id: i32,
    pub shipment_date: i64,
    pub expected_delivery_date: i64,
    pub status: String,
    pub total_cost: u64,
    pub supplier_name: Option<String>,
    pub items: Vec<ShipmentItemResponse>,
}

} // verus!
