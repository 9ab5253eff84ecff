use shop_core::dtos::OrderCreate;
use shop_core::dtos::OrderItemCreate;
use shop_core::dtos::OrderUpdate;
use shop_core::dtos::ProductCreate;
use shop_core::dtos::ShipmentCreate;
use shop_core::dtos::ShipmentItemCreate;
use shop_core::error::AppError;
use shop_core::order_service::OrderService;
use shop_core::product_service::ProductService;
use shop_core::shipment_service::ShipmentService;
use shop_core::store::Store;

fn seed_product(store: &mut Store, name: &str, price: u64, stock: i32) -> i32 {
    let p = ProductService::create(
        store,
        ProductCreate {
            name: name.to_owned(),
            description: None,
            price,
            stock_quantity: stock,
            category_id: 1,
            supplier_id: 1,
        },
    )
    .expect("product creation should succeed");
    p.product_id
}

fn order_line(product_id: i32, quantity: i32, unit_price: u64) -> OrderItemCreate {
    OrderItemCreate { product_id, quantity, unit_price }
}

fn order_request(items: Vec<OrderItemCreate>) -> OrderCreate {
    OrderCreate {
        customer_id: 1,
        status: None,
        total_amount: 0,
        shipping_address: "12 Main St".to_owned(),
        items,
    }
}

fn shipment_line(product_id: i32, quantity: i32, unit_cost: u64) -> ShipmentItemCreate {
    ShipmentItemCreate { product_id, quantity, unit_cost }
}

fn shipment_request(items: Vec<ShipmentItemCreate>) -> ShipmentCreate {
    ShipmentCreate {
        supplier_id: 1,
        shipment_date: 100,
        expected_delivery_date: 105,
        status: None,
        total_cost: 0,
        items,
    }
}

fn stock_of(store: &Store, product_id: i32) -> i32 {
    ProductService::find_by_id(store, product_id)
        .expect("product should exist")
        .stock_quantity
}

#[test]
fn order_reduces_stock_and_persists() {
    let mut store = Store::new();
    let p = seed_product(&mut store, "widget", 250, 10);
    let order =
        OrderService::create_at(&mut store, order_request(vec![order_line(p, 4, 250)]), 77)
            .expect("order should be accepted");
    assert_eq!(stock_of(&store, p), 6);
    assert_eq!(order.order_date, 77);
    assert_eq!(order.status, "pending");
    let (header, items) =
        OrderService::find_with_details(&store, order.order_id).expect("order should exist");
    assert_eq!(header.order_id, order.order_id);
    assert_eq!(items.len(), 1);
    assert_eq!(items[0].product_id, p);
    assert_eq!(items[0].quantity, 4);
    assert_eq!(items[0].unit_price, 250);
}

#[test]
fn order_with_explicit_status_keeps_it() {
    let mut store = Store::new();
    let p = seed_product(&mut store, "widget", 250, 10);
    let mut dto = order_request(vec![order_line(p, 1, 250)]);
    dto.status = Some("confirmed".to_owned());
    let order = OrderService::create_at(&mut store, dto, 1).expect("order should be accepted");
    assert_eq!(order.status, "confirmed");
}

#[test]
fn insufficient_stock_rejects_order_and_changes_nothing() {
    let mut store = Store::new();
    let p = seed_product(&mut store, "widget", 250, 5);
    let r = OrderService::create_at(&mut store, order_request(vec![order_line(p, 6, 250)]), 1);
    match r {
        Err(AppError::Validation(m)) => assert_eq!(m, "Insufficient stock"),
        _ => panic!("expected a validation error"),
    }
    assert_eq!(stock_of(&store, p), 5);
    assert!(OrderService::find_all(&store).is_empty());
    assert_eq!(store.order_items.len(), 0);
}

#[test]
fn multi_line_failure_rolls_back_every_line() {
    let mut store = Store::new();
    let a = seed_product(&mut store, "first", 100, 10);
    let b = seed_product(&mut store, "second", 100, 2);
    // The first line alone would pass; the second makes the whole order fail.
    let r = OrderService::create_at(
        &mut store,
        order_request(vec![order_line(a, 3, 100), order_line(b, 5, 100)]),
        1,
    );
    match r {
        Err(AppError::Validation(m)) => assert_eq!(m, "Insufficient stock"),
        _ => panic!("expected a validation error"),
    }
    assert_eq!(stock_of(&store, a), 10);
    assert_eq!(stock_of(&store, b), 2);
    assert!(OrderService::find_all(&store).is_empty());
    assert_eq!(store.order_items.len(), 0);
}

#[test]
fn last_unit_goes_to_exactly_one_order() {
    let mut store = Store::new();
    let p = seed_product(&mut store, "rare", 999, 1);
    let first = OrderService::create_at(&mut store, order_request(vec![order_line(p, 1, 999)]), 1);
    let second = OrderService::create_at(&mut store, order_request(vec![order_line(p, 1, 999)]), 2);
    assert!(first.is_ok());
    match second {
        Err(AppError::Validation(m)) => assert_eq!(m, "Insufficient stock"),
        _ => panic!("expected a validation error"),
    }
    assert_eq!(stock_of(&store, p), 0);
    assert_eq!(OrderService::find_all(&store).len(), 1);
}

#[test]
fn zero_quantity_line_is_rejected() {
    let mut store = Store::new();
    let p = seed_product(&mut store, "widget", 250, 5);
    let r = OrderService::create_at(&mut store, order_request(vec![order_line(p, 0, 250)]), 1);
    match r {
        Err(AppError::Validation(m)) => assert_eq!(m, "Quantity must be positive"),
        _ => panic!("expected a validation error"),
    }
    assert_eq!(stock_of(&store, p), 5);
}

#[test]
fn repeated_product_line_is_a_storage_error() {
    let mut store = Store::new();
    let p = seed_product(&mut store, "widget", 250, 5);
    let r = OrderService::create_at(
        &mut store,
        order_request(vec![order_line(p, 1, 250), order_line(p, 1, 250)]),
        1,
    );
    assert!(matches!(r, Err(AppError::Storage)));
    assert_eq!(stock_of(&store, p), 5);
}

#[test]
fn unknown_product_line_is_not_found() {
    let mut store = Store::new();
    let r = OrderService::create_at(&mut store, order_request(vec![order_line(42, 1, 250)]), 1);
    assert!(matches!(r, Err(AppError::NotFound)));
}

#[test]
fn shipment_adds_stock_and_persists() {
    let mut store = Store::new();
    let p = seed_product(&mut store, "widget", 250, 10);
    let shipment = ShipmentService::create(&mut store, shipment_request(vec![shipment_line(
        p, 7, 120,
    )]))
    .expect("shipment should be accepted");
    assert_eq!(stock_of(&store, p), 17);
    assert_eq!(shipment.status, "in_transit");
    let (header, items) = ShipmentService::find_with_details(&store, shipment.shipment_id)
        .expect("shipment should exist");
    assert_eq!(header.shipment_id, shipment.shipment_id);
    assert_eq!(items.len(), 1);
    assert_eq!(items[0].quantity, 7);
    assert_eq!(items[0].unit_cost, 120);
}

#[test]
fn shipment_date_order_is_validated() {
    let mut store = Store::new();
    let p = seed_product(&mut store, "widget", 250, 10);
    let mut dto = shipment_request(vec![shipment_line(p, 1, 120)]);
    dto.expected_delivery_date = 99;
    let r = ShipmentService::create(&mut store, dto);
    match r {
        Err(AppError::Validation(m)) => {
            assert_eq!(m, "Expected delivery date must not precede shipment date")
        }
        _ => panic!("expected a validation error"),
    }
    assert_eq!(stock_of(&store, p), 10);
    assert!(ShipmentService::find_all(&store).is_empty());
}

#[test]
fn shipment_overflow_is_a_storage_error() {
    let mut store = Store::new();
    let p = seed_product(&mut store, "widget", 250, 0);
    ProductService::update_stock(&mut store, p, i32::MAX - 3).expect("direct stock write");
    let r = ShipmentService::create(&mut store, shipment_request(vec![shipment_line(p, 7, 1)]));
    assert!(matches!(r, Err(AppError::Storage)));
    assert_eq!(stock_of(&store, p), i32::MAX - 3);
    assert!(ShipmentService::find_all(&store).is_empty());
}

#[test]
fn shipment_multi_line_failure_rolls_back_received_stock() {
    let mut store = Store::new();
    let a = seed_product(&mut store, "first", 100, 5);
    let r = ShipmentService::create(&mut store, shipment_request(vec![
        shipment_line(a, 3, 100),
        shipment_line(99, 2, 100),
    ]));
    assert!(matches!(r, Err(AppError::NotFound)));
    assert_eq!(stock_of(&store, a), 5);
}

#[test]
fn order_update_patches_header_and_replaces_items() {
    let mut store = Store::new();
    let a = seed_product(&mut store, "first", 100, 10);
    let b = seed_product(&mut store, "second", 100, 10);
    let order = OrderService::create_at(&mut store, order_request(vec![order_line(a, 2, 100)]), 1)
        .expect("order should be accepted");
    let updated = OrderService::update(
        &mut store,
        order.order_id,
        OrderUpdate {
            status: Some("shipped".to_owned()),
            total_amount: Some(777),
            shipping_address: None,
            items: Some(vec![order_line(b, 3, 90)]),
        },
    )
    .expect("update should succeed");
    assert_eq!(updated.status, "shipped");
    assert_eq!(updated.total_amount, 777);
    assert_eq!(updated.shipping_address, "12 Main St");
    let (_, items) =
        OrderService::find_with_details(&store, order.order_id).expect("order should exist");
    assert_eq!(items.len(), 1);
    assert_eq!(items[0].product_id, b);
    assert_eq!(items[0].quantity, 3);
    // Item replacement neither re-validates nor adjusts stock.
    assert_eq!(stock_of(&store, a), 8);
    assert_eq!(stock_of(&store, b), 10);
}

#[test]
fn order_update_on_missing_order_is_not_found() {
    let mut store = Store::new();
    let r = OrderService::update(
        &mut store,
        7,
        OrderUpdate { status: None, total_amount: None, shipping_address: None, items: None },
    );
    assert!(matches!(r, Err(AppError::NotFound)));
}

#[test]
fn order_delete_cascades_items_but_not_stock() {
    let mut store = Store::new();
    let p = seed_product(&mut store, "widget", 250, 10);
    let order = OrderService::create_at(&mut store, order_request(vec![order_line(p, 4, 250)]), 1)
        .expect("order should be accepted");
    OrderService::delete(&mut store, order.order_id).expect("delete should succeed");
    assert!(OrderService::find_all(&store).is_empty());
    assert_eq!(store.order_items.len(), 0);
    // The engine does not restore stock on delete.
    assert_eq!(stock_of(&store, p), 6);
    assert!(matches!(
        OrderService::find_by_id(&store, order.order_id),
        Err(AppError::NotFound)
    ));
}

#[test]
fn shipment_delete_cascades_items_but_not_stock() {
    let mut store = Store::new();
    let p = seed_product(&mut store, "widget", 250, 10);
    let shipment = ShipmentService::create(&mut store, shipment_request(vec![shipment_line(
        p, 7, 120,
    )]))
    .expect("shipment should be accepted");
    ShipmentService::delete(&mut store, shipment.shipment_id).expect("delete should succeed");
    assert!(ShipmentService::find_all(&store).is_empty());
    assert_eq!(store.shipment_items.len(), 0);
    assert_eq!(stock_of(&store, p), 17);
}

#[test]
fn price_update_keeps_snapshotted_unit_prices() {
    let mut store = Store::new();
    let p = seed_product(&mut store, "widget", 500, 10);
    let order = OrderService::create_at(&mut store, order_request(vec![order_line(p, 2, 500)]), 1)
        .expect("order should be accepted");
    ProductService::update(
        &mut store,
        p,
        shop_core::dtos::ProductUpdate {
            name: None,
            description: None,
            price: Some(900),
            stock_quantity: None,
            category_id: None,
            supplier_id: None,
        },
    )
    .expect("product update should succeed");
    assert_eq!(ProductService::find_by_id(&store, p).unwrap().price, 900);
    let (_, items) =
        OrderService::find_with_details(&store, order.order_id).expect("order should exist");
    assert_eq!(items[0].unit_price, 500);
}

#[test]
fn referenced_product_cannot_be_deleted() {
    let mut store = Store::new();
    let p = seed_product(&mut store, "widget", 250, 10);
    OrderService::create_at(&mut store, order_request(vec![order_line(p, 1, 250)]), 1)
        .expect("order should be accepted");
    assert!(matches!(ProductService::delete(&mut store, p), Err(AppError::Storage)));
    assert!(ProductService::find_by_id(&store, p).is_ok());
}

#[test]
fn unreferenced_product_can_be_deleted() {
    let mut store = Store::new();
    let p = seed_product(&mut store, "widget", 250, 10);
    ProductService::delete(&mut store, p).expect("delete should succeed");
    assert!(matches!(ProductService::find_by_id(&store, p), Err(AppError::NotFound)));
}

#[test]
fn negative_stock_writes_are_rejected() {
    let mut store = Store::new();
    let p = seed_product(&mut store, "widget", 250, 10);
    let r = ProductService::update_stock(&mut store, p, -1);
    match r {
        Err(AppError::Validation(m)) => assert_eq!(m, "Stock quantity must not be negative"),
        _ => panic!("expected a validation error"),
    }
    assert_eq!(stock_of(&store, p), 10);
    let r2 = ProductService::create(
        &mut store,
        ProductCreate {
            name: "bad".to_owned(),
            description: None,
            price: 1,
            stock_quantity: -5,
            category_id: 1,
            supplier_id: 1,
        },
    );
    assert!(matches!(r2, Err(AppError::Validation(_))));
}

#[test]
fn order_creation_stamps_the_clock() {
    let mut store = Store::new();
    let p = seed_product(&mut store, "widget", 250, 10);
    let order = OrderService::create(&mut store, order_request(vec![order_line(p, 1, 250)]))
        .expect("order should be accepted");
    // A wall-clock timestamp from this century is far above zero.
    assert!(order.order_date > 0);
    assert_eq!(stock_of(&store, p), 9);
}

#[test]
fn order_update_rejects_bad_replacement_lines_and_changes_nothing() {
    let mut store = Store::new();
    let p = seed_product(&mut store, "widget", 250, 10);
    let order = OrderService::create_at(&mut store, order_request(vec![order_line(p, 2, 250)]), 1)
        .expect("order should be accepted");
    let r = OrderService::update(
        &mut store,
        order.order_id,
        OrderUpdate {
            status: Some("shipped".to_owned()),
            total_amount: None,
            shipping_address: None,
            items: Some(vec![order_line(p, 0, 250)]),
        },
    );
    assert!(matches!(r, Err(AppError::Validation(_))));
    // The rejected update changed neither the header nor the items.
    let fetched = OrderService::find_by_id(&store, order.order_id).unwrap();
    assert_eq!(fetched.status, "pending");
    let (_, items) = OrderService::find_with_details(&store, order.order_id).unwrap();
    assert_eq!(items.len(), 1);
    assert_eq!(items[0].quantity, 2);
}

#[test]
fn shipment_update_patches_header_and_replaces_items() {
    let mut store = Store::new();
    let a = seed_product(&mut store, "first", 100, 10);
    let b = seed_product(&mut store, "second", 100, 10);
    let shipment = ShipmentService::create(&mut store, shipment_request(vec![shipment_line(
        a, 2, 100,
    )]))
    .expect("shipment should be accepted");
    let updated = ShipmentService::update(
        &mut store,
        shipment.shipment_id,
        shop_core::dtos::ShipmentUpdate {
            status: Some("delivered".to_owned()),
            expected_delivery_date: Some(110),
            total_cost: None,
            items: Some(vec![shipment_line(b, 4, 80)]),
        },
    )
    .expect("update should succeed");
    assert_eq!(updated.status, "delivered");
    assert_eq!(updated.expected_delivery_date, 110);
    assert_eq!(updated.total_cost, 0);
    let (_, items) = ShipmentService::find_with_details(&store, shipment.shipment_id).unwrap();
    assert_eq!(items.len(), 1);
    assert_eq!(items[0].product_id, b);
    // Item replacement neither re-validates nor adjusts stock.
    assert_eq!(stock_of(&store, a), 12);
    assert_eq!(stock_of(&store, b), 10);
}

#[test]
fn shipment_update_cannot_move_delivery_before_shipment_date() {
    let mut store = Store::new();
    let p = seed_product(&mut store, "widget", 250, 10);
    let shipment = ShipmentService::create(&mut store, shipment_request(vec![shipment_line(
        p, 1, 100,
    )]))
    .expect("shipment should be accepted");
    let r = ShipmentService::update(
        &mut store,
        shipment.shipment_id,
        shop_core::dtos::ShipmentUpdate {
            status: None,
            expected_delivery_date: Some(99),
            total_cost: None,
            items: None,
        },
    );
    assert!(matches!(r, Err(AppError::Validation(_))));
    let fetched = ShipmentService::find_by_id(&store, shipment.shipment_id).unwrap();
    assert_eq!(fetched.expected_delivery_date, 105);
}

#[test]
fn stock_stays_nonnegative_across_a_workload() {
    let mut store = Store::new();
    let p = seed_product(&mut store, "widget", 250, 3);
    let _ = OrderService::create_at(&mut store, order_request(vec![order_line(p, 2, 250)]), 1);
    let _ = OrderService::create_at(&mut store, order_request(vec![order_line(p, 2, 250)]), 2);
    let _ = ShipmentService::create(&mut store, shipment_request(vec![shipment_line(p, 4, 1)]));
    let _ = OrderService::create_at(&mut store, order_request(vec![order_line(p, 5, 250)]), 3);
    for row in ProductService::find_all(&store) {
        assert!(row.stock_quantity >= 0);
    }
}
