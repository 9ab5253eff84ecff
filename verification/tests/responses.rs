use shop_core::customer_service::CustomerService;
use shop_core::dtos::CustomerCreate;
use shop_core::dtos::OrderCreate;
use shop_core::dtos::OrderItemCreate;
use shop_core::dtos::ProductCreate;
use shop_core::dtos::ShipmentCreate;
use shop_core::dtos::ShipmentItemCreate;
use shop_core::dtos::SupplierCreate;
use shop_core::error::AppError;
use shop_core::order_service::OrderService;
use shop_core::product_service::ProductService;
use shop_core::queries;
use shop_core::shipment_service::ShipmentService;
use shop_core::store::Store;
use shop_core::supplier_service::SupplierService;

fn seed_customer(store: &mut Store, first: &str, last: &str) -> i32 {
    CustomerService::create_at(
        store,
        CustomerCreate {
            first_name: first.to_owned(),
            last_name: last.to_owned(),
            email: "a@example.com".to_owned(),
            phone: None,
            address: None,
        },
        1,
    )
    .expect("customer creation should succeed")
    .customer_id
}

fn seed_supplier(store: &mut Store, company: &str) -> i32 {
    SupplierService::create(
        store,
        SupplierCreate {
            company_name: company.to_owned(),
            contact_name: None,
            email: None,
            phone: None,
            address: None,
        },
    )
    .expect("supplier creation should succeed")
    .supplier_id
}

fn seed_product(store: &mut Store, name: &str, supplier_id: i32, stock: i32) -> i32 {
    ProductService::create(
        store,
        ProductCreate {
            name: name.to_owned(),
            description: None,
            price: 100,
            stock_quantity: stock,
            category_id: 1,
            supplier_id,
        },
    )
    .expect("product creation should succeed")
    .product_id
}

fn seed_order(store: &mut Store, customer_id: i32, product_id: i32, quantity: i32) -> i32 {
    OrderService::create_at(
        store,
        OrderCreate {
            customer_id,
            status: None,
            total_amount: 500,
            shipping_address: "12 Main St".to_owned(),
            items: vec![OrderItemCreate { product_id, quantity, unit_price: 100 }],
        },
        7,
    )
    .expect("order creation should succeed")
    .order_id
}

#[test]
fn orders_list_joins_customer_names() {
    let mut store = Store::new();
    let ada = seed_customer(&mut store, "Ada", "Lovelace");
    let p = seed_product(&mut store, "widget", 1, 10);
    seed_order(&mut store, ada, p, 1);
    let rows = queries::get_orders(&store);
    assert_eq!(rows.len(), 1);
    assert_eq!(rows[0].customer_name.as_deref(), Some("Ada Lovelace"));
    assert_eq!(rows[0].status, "pending");
    assert_eq!(rows[0].total_amount, 500);
}

#[test]
fn orders_list_uses_a_blank_name_for_a_missing_customer() {
    let mut store = Store::new();
    let p = seed_product(&mut store, "widget", 1, 10);
    seed_order(&mut store, 42, p, 1);
    let rows = queries::get_orders(&store);
    assert_eq!(rows.len(), 1);
    assert_eq!(rows[0].customer_name.as_deref(), Some(" "));
}

#[test]
fn order_details_join_items_and_product_names() {
    let mut store = Store::new();
    let ada = seed_customer(&mut store, "Ada", "Lovelace");
    let p = seed_product(&mut store, "widget", 1, 10);
    let oid = seed_order(&mut store, ada, p, 3);
    let d = queries::get_order_details(&store, oid).expect("order should exist");
    assert_eq!(d.customer_name.as_deref(), Some("Ada Lovelace"));
    assert_eq!(d.items.len(), 1);
    assert_eq!(d.items[0].product_name.as_deref(), Some("widget"));
    assert_eq!(d.items[0].quantity, 3);
    assert_eq!(d.items[0].unit_price, 100);
}

#[test]
fn order_details_require_the_customer_to_exist() {
    let mut store = Store::new();
    let p = seed_product(&mut store, "widget", 1, 10);
    let oid = seed_order(&mut store, 42, p, 1);
    assert!(matches!(
        queries::get_order_details(&store, oid),
        Err(AppError::NotFound)
    ));
}

#[test]
fn shipment_views_join_supplier_and_product_names() {
    let mut store = Store::new();
    let acme = seed_supplier(&mut store, "Acme");
    let p = seed_product(&mut store, "widget", acme, 10);
    let shipment = ShipmentService::create(
        &mut store,
        ShipmentCreate {
            supplier_id: acme,
            shipment_date: 10,
            expected_delivery_date: 12,
            status: None,
            total_cost: 900,
            items: vec![ShipmentItemCreate { product_id: p, quantity: 2, unit_cost: 450 }],
        },
    )
    .expect("shipment creation should succeed");
    let rows = queries::get_shipments(&store);
    assert_eq!(rows.len(), 1);
    assert_eq!(rows[0].supplier_name.as_deref(), Some("Acme"));
    let d = queries::get_shipment_details(&store, shipment.shipment_id)
        .expect("shipment should exist");
    assert_eq!(d.supplier_name.as_deref(), Some("Acme"));
    assert_eq!(d.items.len(), 1);
    assert_eq!(d.items[0].product_name.as_deref(), Some("widget"));
}

#[test]
fn product_views_join_category_and_supplier_names() {
    let mut store = Store::new();
    let acme = seed_supplier(&mut store, "Acme");
    let p = seed_product(&mut store, "widget", acme, 10);
    let rows = queries::get_products(&store);
    assert_eq!(rows.len(), 1);
    // No category table row was created, so the joined name is empty.
    assert_eq!(rows[0].category_name.as_deref(), Some(""));
    assert_eq!(rows[0].supplier_name.as_deref(), Some("Acme"));
    let one = queries::get_product(&store, p).expect("product should exist");
    assert_eq!(one.name, "widget");
    assert!(matches!(queries::get_product(&store, 99), Err(AppError::NotFound)));
}

#[test]
fn customer_orders_view_carries_the_owner_name() {
    let mut store = Store::new();
    let ada = seed_customer(&mut store, "Ada", "Lovelace");
    let p = seed_product(&mut store, "widget", 1, 10);
    seed_order(&mut store, ada, p, 1);
    seed_order(&mut store, ada, p, 2);
    let (c, orders) = queries::get_customer_orders(&store, ada).expect("customer should exist");
    assert_eq!(c.first_name, "Ada");
    assert_eq!(orders.len(), 2);
    assert!(orders.iter().all(|o| o.customer_name.as_deref() == Some("Ada Lovelace")));
}

#[test]
fn supplier_products_view_omits_category_names() {
    let mut store = Store::new();
    let acme = seed_supplier(&mut store, "Acme");
    seed_product(&mut store, "widget", acme, 10);
    let (s, products) = queries::get_supplier_products(&store, acme)
        .expect("supplier should exist");
    assert_eq!(s.company_name, "Acme");
    assert_eq!(products.len(), 1);
    assert!(products[0].category_name.is_none());
    assert_eq!(products[0].supplier_name.as_deref(), Some("Acme"));
}

#[test]
fn single_row_views_report_missing_rows() {
    let store = Store::new();
    assert!(matches!(queries::get_order(&store, 1), Err(AppError::NotFound)));
    assert!(matches!(queries::get_shipment(&store, 1), Err(AppError::NotFound)));
    assert!(matches!(queries::get_customer(&store, 1), Err(AppError::NotFound)));
    assert!(matches!(queries::get_supplier(&store, 1), Err(AppError::NotFound)));
    assert!(matches!(queries::get_category(&store, 1), Err(AppError::NotFound)));
    assert!(queries::get_customers(&store).is_empty());
    assert!(queries::get_suppliers(&store).is_empty());
    assert!(queries::get_categories(&store).is_empty());
}
