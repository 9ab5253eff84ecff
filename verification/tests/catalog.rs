use shop_core::category_service::CategoryService;
use shop_core::customer_service::CustomerService;
use shop_core::dtos::CategoryCreate;
use shop_core::dtos::CategoryUpdate;
use shop_core::dtos::CustomerCreate;
use shop_core::dtos::CustomerUpdate;
use shop_core::dtos::OrderCreate;
use shop_core::dtos::OrderItemCreate;
use shop_core::dtos::ProductCreate;
use shop_core::dtos::SupplierCreate;
use shop_core::dtos::SupplierUpdate;
use shop_core::error::AppError;
use shop_core::order_service::OrderService;
use shop_core::product_service::ProductService;
use shop_core::store::Store;
use shop_core::supplier_service::SupplierService;

fn customer(first: &str, last: &str) -> CustomerCreate {
    CustomerCreate {
        first_name: first.to_owned(),
        last_name: last.to_owned(),
        email: "a@example.com".to_owned(),
        phone: None,
        address: None,
    }
}

#[test]
fn category_crud_round_trip() {
    let mut store = Store::new();
    let c = CategoryService::create(
        &mut store,
        CategoryCreate { name: "tools".to_owned(), description: None },
    )
    .expect("create should succeed");
    assert_eq!(c.category_id, 1);
    assert_eq!(CategoryService::find_all(&store).len(), 1);
    let fetched = CategoryService::find_by_id(&store, 1).expect("category should exist");
    assert_eq!(fetched.name, "tools");
    let updated = CategoryService::update(
        &mut store,
        1,
        CategoryUpdate { name: None, description: Some("hand tools".to_owned()) },
    )
    .expect("update should succeed");
    assert_eq!(updated.name, "tools");
    assert_eq!(updated.description.as_deref(), Some("hand tools"));
    CategoryService::delete(&mut store, 1).expect("delete should succeed");
    assert!(matches!(CategoryService::find_by_id(&store, 1), Err(AppError::NotFound)));
}

#[test]
fn customer_crud_round_trip() {
    let mut store = Store::new();
    let c = CustomerService::create_at(&mut store, customer("Ada", "Lovelace"), 1_000)
        .expect("create should succeed");
    assert_eq!(c.customer_id, 1);
    assert_eq!(c.registration_date, 1_000);
    let updated = CustomerService::update(
        &mut store,
        1,
        CustomerUpdate {
            first_name: None,
            last_name: None,
            email: Some("ada@example.com".to_owned()),
            phone: Some("555".to_owned()),
            address: None,
        },
    )
    .expect("update should succeed");
    assert_eq!(updated.email, "ada@example.com");
    assert_eq!(updated.phone.as_deref(), Some("555"));
    assert_eq!(updated.registration_date, 1_000);
    CustomerService::delete(&mut store, 1).expect("delete should succeed");
    assert!(CustomerService::find_all(&store).is_empty());
}

#[test]
fn customer_creation_stamps_the_clock() {
    let mut store = Store::new();
    let c = CustomerService::create(&mut store, customer("Ada", "Lovelace"))
        .expect("create should succeed");
    // A wall-clock timestamp from this century is far above zero.
    assert!(c.registration_date > 0);
}

#[test]
fn supplier_crud_round_trip() {
    let mut store = Store::new();
    let s = SupplierService::create(
        &mut store,
        SupplierCreate {
            company_name: "Acme".to_owned(),
            contact_name: None,
            email: None,
            phone: None,
            address: None,
        },
    )
    .expect("create should succeed");
    assert_eq!(s.supplier_id, 1);
    let updated = SupplierService::update(
        &mut store,
        1,
        SupplierUpdate {
            company_name: Some("Acme Ltd".to_owned()),
            contact_name: Some("Joe".to_owned()),
            email: None,
            phone: None,
            address: None,
        },
    )
    .expect("update should succeed");
    assert_eq!(updated.company_name, "Acme Ltd");
    assert_eq!(updated.contact_name.as_deref(), Some("Joe"));
    SupplierService::delete(&mut store, 1).expect("delete should succeed");
    assert!(matches!(SupplierService::find_by_id(&store, 1), Err(AppError::NotFound)));
}

#[test]
fn customer_orders_are_joined() {
    let mut store = Store::new();
    let ada = CustomerService::create_at(&mut store, customer("Ada", "Lovelace"), 1)
        .expect("create should succeed");
    let bob = CustomerService::create_at(&mut store, customer("Bob", "Smith"), 2)
        .expect("create should succeed");
    let p = ProductService::create(
        &mut store,
        ProductCreate {
            name: "widget".to_owned(),
            description: None,
            price: 10,
            stock_quantity: 100,
            category_id: 1,
            supplier_id: 1,
        },
    )
    .expect("create should succeed")
    .product_id;
    for owner in [ada.customer_id, bob.customer_id, ada.customer_id] {
        OrderService::create_at(
            &mut store,
            OrderCreate {
                customer_id: owner,
                status: None,
                total_amount: 0,
                shipping_address: "x".to_owned(),
                items: vec![OrderItemCreate { product_id: p, quantity: 1, unit_price: 10 }],
            },
            5,
        )
        .expect("order should be accepted");
    }
    let (c, orders) = CustomerService::find_with_orders(&store, ada.customer_id)
        .expect("customer should exist");
    assert_eq!(c.first_name, "Ada");
    assert_eq!(orders.len(), 2);
    assert!(orders.iter().all(|o| o.customer_id == ada.customer_id));
    assert!(matches!(
        CustomerService::find_with_orders(&store, 99),
        Err(AppError::NotFound)
    ));
}

#[test]
fn supplier_products_are_joined() {
    let mut store = Store::new();
    let acme = SupplierService::create(
        &mut store,
        SupplierCreate {
            company_name: "Acme".to_owned(),
            contact_name: None,
            email: None,
            phone: None,
            address: None,
        },
    )
    .expect("create should succeed");
    for (name, supplier) in [("a", acme.supplier_id), ("b", 99), ("c", acme.supplier_id)] {
        ProductService::create(
            &mut store,
            ProductCreate {
                name: name.to_owned(),
                description: None,
                price: 10,
                stock_quantity: 1,
                category_id: 1,
                supplier_id: supplier,
            },
        )
        .expect("create should succeed");
    }
    let (s, products) = SupplierService::find_with_products(&store, acme.supplier_id)
        .expect("supplier should exist");
    assert_eq!(s.company_name, "Acme");
    assert_eq!(products.len(), 2);
    assert_eq!(products[0].name, "a");
    assert_eq!(products[1].name, "c");
}
