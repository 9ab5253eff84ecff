//! Read-side assembly: joins store rows into the response shapes the API
//! serves, mirroring the lookup behaviour of the endpoints (a missing
//! joined row falls back to empty names everywhere except the order
//! details read, which reports it as not found).

use vstd::prelude::*;
use vstd::string::StringExecFns;

use crate::dtos::CategoryResponse;
use crate::dtos::CustomerResponse;
use crate::dtos::OrderDetailsResponse;
use crate::dtos::OrderItemResponse;
use crate::dtos::OrderResponse;
use crate::dtos::ProductResponse;
use crate::dtos::ShipmentDetailsResponse;
use crate::dtos::ShipmentItemResponse;
use crate::dtos::ShipmentResponse;
use crate::dtos::SupplierResponse;
use crate::error::AppError;
use crate::model::Category;
use crate::model::Customer;
use crate::model::Order;
use crate::model::OrderItem;
use crate::model::Product;
use crate::model::Shipment;
use crate::model::ShipmentItem;
use crate::model::Supplier;
use crate::model::category_index;
use crate::model::customer_index;
use crate::model::has_category;
use crate::model::has_customer;
use crate::model::has_order;
use crate::model::has_product;
use crate::model::has_shipment;
use crate::model::has_supplier;
use crate::model::order_index;
use crate::model::order_items_of;
use crate::model::product_index;
use crate::model::shipment_index;
use crate::model::shipment_items_of;
use crate::model::supplier_index;
use crate::store::Store;

verus! {

/// The first name of a customer, or empty when the id is absent.
pub open spec fn customer_first_name(cs: Seq<Customer>, id: i32) -> Seq<char> {
    if has_customer(cs, id) {
        cs[customer_index(cs, id)].first_name@
    } else {
        Seq::<char>::empty()
    }
}

/// The last name of a customer, or empty when the id is absent.
pub open spec fn customer_last_name(cs: Seq<Customer>, id: i32) -> Seq<char> {
    if has_customer(cs, id) {
        cs[customer_index(cs, id)].last_name@
    } else {
        Seq::<char>::empty()
    }
}

/// The display name joined onto a document: first and last name separated
/// by one space, with empty names for an absent customer.
pub open spec fn customer_display_name(cs: Seq<Customer>, id: i32) -> Seq<char> {
    customer_first_name(cs, id) + " "@ + customer_last_name(cs, id)
}

/// The company name of a supplier, or empty when the id is absent.
pub open spec fn supplier_display_name(ss: Seq<Supplier>, id: i32) -> Seq<char> {
    if has_supplier(ss, id) {
        ss[supplier_index(ss, id)].company_name@
    } else {
        Seq::<char>::empty()
    }
}

/// The name of a category, or empty when the id is absent.
pub open spec fn category_display_name(cs: Seq<Category>, id: i32) -> Seq<char> {
    if has_category(cs, id) {
        cs[category_index(cs, id)].name@
    } else {
        Seq::<char>::empty()
    }
}

/// The name of a product, or empty when the id is absent.
pub open spec fn product_display_name(ps: Seq<Product>, id: i32) -> Seq<char> {
    if has_product(ps, id) {
        ps[product_index(ps, id)].name@
    } else {
        Seq::<char>::empty()
    }
}

pub open spec fn order_response_matches(s: Store, o: Order, r: OrderResponse) -> bool {
    &&& r.order_id == o.order_id
    &&& r.customer_id == o.customer_id
    &&& r.order_date == o.order_date
    &&& r.status == o.status
    &&& r.total_amount == o.total_amount
    &&& r.shipping_address == o.shipping_address
    &&& (r.customer_name matches Option::Some(n) && n@ == customer_display_name(
        s.customers@,
        o.customer_id,
    ))
}

pub open spec fn shipment_response_matches(s: Store, sh: Shipment, r: ShipmentResponse) -> bool {
    &&& r.shipment_id == sh.shipment_id
    &&& r.supplier_id == sh.supplier_id
    &&& r.shipment_date == sh.shipment_date
    &&& r.expected_delivery_date == sh.expected_delivery_date
    &&& r.status == sh.status
    &&& r.total_cost == sh.total_cost
    &&& (r.supplier_name matches Option::Some(n) && n@ == supplier_display_name(
        s.suppliers@,
        sh.supplier_id,
    ))
}

pub open spec fn product_response_matches(s: Store, p: Product, r: ProductResponse) -> bool {
    &&& r.product_id == p.product_id
    &&& r.name == p.name
    &&& r.description == p.description
    &&& r.price == p.price
    &&& r.stock_quantity == p.stock_quantity
    &&& r.category_id == p.category_id
    &&& r.supplier_id == p.supplier_id
    &&& (r.category_name matches Option::Some(n) && n@ == category_display_name(
        s.categories@,
        p.category_id,
    ))
    &&& (r.supplier_name matches Option::Some(n) && n@ == supplier_display_name(
        s.suppliers@,
        p.supplier_id,
    ))
}

pub open spec fn customer_response_matches(c: Customer, r: CustomerResponse) -> bool {
    &&& r.customer_id == c.customer_id
    &&& r.first_name == c.first_name
    &&& r.last_name == c.last_name
    &&& r.email == c.email
    &&& r.phone == c.phone
    &&& r.registration_date == c.registration_date
    &&& r.address == c.address
}

pub open spec fn supplier_response_matches(s: Supplier, r: SupplierResponse) -> bool {
    &&& r.supplier_id == s.supplier_id
    &&& r.company_name == s.company_name
    &&& r.contact_name == s.contact_name
    &&& r.email == s.email
    &&& r.phone == s.phone
    &&& r.address == s.address
}

pub open spec fn category_response_matches(c: Category, r: CategoryResponse) -> bool {
    &&& r.category_id == c.category_id
    &&& r.name == c.name
    &&& r.description == c.description
}

pub open spec fn order_item_response_matches(s: Store, it: OrderItem, r: OrderItemResponse) -> bool {
    &&& r.order_id == it.order_id
    &&& r.product_id == it.product_id
    &&& r.quantity == it.quantity
    &&& r.unit_price == it.unit_price
    &&& (r.product_name matches Option::Some(n) && n@ == product_display_name(
        s.products@,
        it.product_id,
    ))
}

pub open spec fn shipment_item_response_matches(
    s: Store,
    it: ShipmentItem,
    r: ShipmentItemResponse,
) -> bool {
    &&& r.shipment_id == it.shipment_id
    &&& r.product_id == it.product_id
    &&& r.quantity == it.quantity
    &&& r.unit_cost == it.unit_cost
    &&& (r.product_name matches Option::Some(n) && n@ == product_display_name(
        s.products@,
        it.product_id,
    ))
}

/// First and last name separated by one space.
fn full_name(first: &str, last: &str) -> (r: String)
    ensures
        r@ == first@ + " "@ + last@,
{
    let mut s = first.to_owned();
    s.append(" ");
    s.append(last);
    s
}

/// The display name of a customer, with empty names when the id is absent.
fn lookup_customer_name(store: &Store, id: i32) -> (r: String)
    requires
        store.wf(),
    ensures
        r@ == customer_display_name(store.customers@, id),
{
    match crate::store::find_customer_index(&store.customers, id) {
        Option::Some(i) => {
            proof {
                let cs = store.customers@;
                assert(has_customer(cs, id));
                let j = customer_index(cs, id);
                assert(0 <= j < cs.len() && cs[j].customer_id == id);
                assert(j == i as int);
            }
            let c = &store.customers[i];
            full_name(c.first_name.as_str(), c.last_name.as_str())
        },
        Option::None => {
            proof {
                reveal_strlit("");
                assert(""@ =~= Seq::<char>::empty());
            }
            full_name("", "")
        },
    }
}

/// The company name of a supplier, or empty when the id is absent.
fn lookup_supplier_name(store: &Store, id: i32) -> (r: String)
    requires
        store.wf(),
    ensures
        r@ == supplier_display_name(store.suppliers@, id),
{
    match crate::store::find_supplier_index(&store.suppliers, id) {
        Option::Some(i) => {
            proof {
                let ss = store.suppliers@;
                assert(has_supplier(ss, id));
                let j = supplier_index(ss, id);
                assert(0 <= j < ss.len() && ss[j].supplier_id == id);
                assert(j == i as int);
            }
            store.suppliers[i].company_name.clone()
        },
        Option::None => String::new(),
    }
}

/// The name of a category, or empty when the id is absent.
fn lookup_category_name(store: &Store, id: i32) -> (r: String)
    requires
        store.wf(),
    ensures
        r@ == category_display_name(store.categories@, id),
{
    match crate::store::find_category_index(&store.categories, id) {
        Option::Some(i) => {
            proof {
                let cs = store.categories@;
                assert(has_category(cs, id));
                let j = category_index(cs, id);
                assert(0 <= j < cs.len() && cs[j].category_id == id);
                assert(j == i as int);
            }
            store.categories[i].name.clone()
        },
        Option::None => String::new(),
    }
}

/// The name of a product, or empty when the id is absent.
fn lookup_product_name(store: &Store, id: i32) -> (r: String)
    requires
        store.wf(),
    ensures
        r@ == product_display_name(store.products@, id),
{
    match crate::store::find_product_index(&store.products, id) {
        Option::Some(i) => {
            proof {
                let ps = store.products@;
                assert(has_product(ps, id));
                let j = product_index(ps, id);
                assert(0 <= j < ps.len() && ps[j].product_id == id);
                assert(j == i as int);
            }
            store.products[i].name.clone()
        },
        Option::None => String::new(),
    }
}

/// One order header joined with its customer's display name.
fn order_response(store: &Store, o: &Order) -> (r: OrderResponse)
    requires
        store.wf(),
    ensures
        order_response_matches(*store, *o, r),
{
    OrderResponse {
        order_id: o.order_id,
        customer_id: o.customer_id,
        order_date: o.order_date,
        status: o.status.clone(),
        total_amount: o.total_amount,
        shipping_address: o.shipping_address.clone(),
        customer_name: Option::Some(lookup_customer_name(store, o.customer_id)),
    }
}

/// One shipment header joined with its supplier's company name.
fn shipment_response(store: &Store, sh: &Shipment) -> (r: ShipmentResponse)
    requires
        store.wf(),
    ensures
        shipment_response_matches(*store, *sh, r),
{
    ShipmentResponse {
        shipment_id: sh.shipment_id,
        supplier_id: sh.supplier_id,
        shipment_date: sh.shipment_date,
        expected_delivery_date: sh.expected_delivery_date,
        status: sh.status.clone(),
        total_cost: sh.total_cost,
        supplier_name: Option::Some(lookup_supplier_name(store, sh.supplier_id)),
    }
}

/// One product row joined with its category and supplier names.
fn product_response(store: &Store, p: &Product) -> (r: ProductResponse)
    requires
        store.wf(),
    ensures
        product_response_matches(*store, *p, r),
{
    ProductResponse {
        product_id: p.product_id,
        name: p.name.clone(),
        description: crate::model::copy_opt_string(&p.description),
        price: p.price,
        stock_quantity: p.stock_quantity,
        category_id: p.category_id,
        supplier_id: p.supplier_id,
        category_name: Option::Some(lookup_category_name(store, p.category_id)),
        supplier_name: Option::Some(lookup_supplier_name(store, p.supplier_id)),
    }
}

fn customer_response(c: &Customer) -> (r: CustomerResponse)
    ensures
        customer_response_matches(*c, r),
{
    CustomerResponse {
        customer_id: c.customer_id,
        first_name: c.first_name.clone(),
        last_name: c.last_name.clone(),
        email: c.email.clone(),
        phone: crate::model::copy_opt_string(&c.phone),
        registration_date: c.registration_date,
        address: crate::model::copy_opt_string(&c.address),
    }
}

fn supplier_response(s: &Supplier) -> (r: SupplierResponse)
    ensures
        supplier_response_matches(*s, r),
{
    SupplierResponse {
        supplier_id: s.supplier_id,
        company_name: s.company_name.clone(),
        contact_name: crate::model::copy_opt_string(&s.contact_name),
        email: crate::model::copy_opt_string(&s.email),
        phone: crate::model::copy_opt_string(&s.phone),
        address: crate::model::copy_opt_string(&s.address),
    }
}

fn category_response(c: &Category) -> (r: CategoryResponse)
    ensures
        category_response_matches(*c, r),
{
    CategoryResponse {
        category_id: c.category_id,
        name: c.name.clone(),
        description: crate::model::copy_opt_string(&c.description),
    }
}

/// All orders, each joined with its customer's display name.
pub fn get_orders(store: &Store) -> (r: Vec<OrderResponse>)
    requires
        store.wf(),
    ensures
        r@.len() == store.orders@.len(),
        forall|i: int|
            0 <= i < r@.len() ==> order_response_matches(
                *store,
                store.orders@[i],
                #[trigger] r@[i],
            ),
{
    let mut out: Vec<OrderResponse> = Vec::new();
    let mut i: usize = 0;
    while i < store.orders.len()
        invariant
            store.wf(),
            i <= store.orders@.len(),
            out@.len() == i,
            forall|j: int|
                0 <= j < i ==> order_response_matches(
                    *store,
                    store.orders@[j],
                    #[trigger] out@[j],
                ),
        decreases store.orders@.len() - i,
    {
        out.push(order_response(store, &store.orders[i]));
        i = i + 1;
    }
    out
}

/// One order joined with its customer's display name, or `NotFound`.
pub fn get_order(store: &Store, id: i32) -> (r: Result<OrderResponse, AppError>)
    requires
        store.wf(),
    ensures
        match r {
            Result::Ok(resp) => has_order(store.orders@, id) && order_response_matches(
                *store,
                store.orders@[order_index(store.orders@, id)],
                resp,
            ),
            Result::Err(e) => e is NotFound && !has_order(store.orders@, id),
        },
{
    let o = match crate::order_service::OrderService::find_by_id(store, id) {
        Result::Ok(o) => o,
        Result::Err(e) => {
            return Result::Err(e);
        },
    };
    Result::Ok(order_response(store, &o))
}

/// What the order-details read returns for an order that exists and whose
/// customer exists.
pub open spec fn order_details_matches(s: Store, id: i32, d: OrderDetailsResponse) -> bool {
    let o = s.orders@[order_index(s.orders@, id)];
    let its = order_items_of(s.order_items@, id);
    &&& d.order_id == o.order_id
    &&& d.customer_id == o.customer_id
    &&& d.order_date == o.order_date
    &&& d.status == o.status
    &&& d.total_amount == o.total_amount
    &&& d.shipping_address == o.shipping_address
    &&& (d.customer_name matches Option::Some(n) && n@ == customer_display_name(
        s.customers@,
        o.customer_id,
    ))
    &&& d.items@.len() == its.len()
    &&& forall|k: int|
        0 <= k < its.len() ==> order_item_response_matches(s, its[k], #[trigger] d.items@[k])
}

/// One order with its item rows, each joined with its product's name; the
/// customer must exist, and so must the order.
#[verifier::loop_isolation(false)]
pub fn get_order_details(store: &Store, id: i32) -> (r: Result<OrderDetailsResponse, AppError>)
    requires
        store.wf(),
    ensures
        match r {
            Result::Ok(d) => {
                &&& has_order(store.orders@, id)
                &&& has_customer(
                    store.customers@,
                    store.orders@[order_index(store.orders@, id)].customer_id,
                )
                &&& order_details_matches(*store, id, d)
            },
            Result::Err(e) => {
                &&& e is NotFound
                &&& (!has_order(store.orders@, id) || !has_customer(
                    store.customers@,
                    store.orders@[order_index(store.orders@, id)].customer_id,
                ))
            },
        },
{
    let (order, items) = match crate::order_service::OrderService::find_with_details(store, id) {
        Result::Ok(p) => p,
        Result::Err(e) => {
            return Result::Err(e);
        },
    };
    let ci = match crate::store::find_customer_index(&store.customers, order.customer_id) {
        Option::Some(i) => i,
        Option::None => {
            return Result::Err(AppError::NotFound);
        },
    };
    proof {
        let cs = store.customers@;
        assert(has_customer(cs, order.customer_id));
        let j = customer_index(cs, order.customer_id);
        assert(0 <= j < cs.len() && cs[j].customer_id == order.customer_id);
        assert(j == ci as int);
    }
    let customer = &store.customers[ci];
    let name = full_name(customer.first_name.as_str(), customer.last_name.as_str());
    let ghost its = order_items_of(store.order_items@, id);
    let mut item_responses: Vec<OrderItemResponse> = Vec::new();
    let mut k: usize = 0;
    while k < items.len()
        invariant
            k <= its.len(),
            items@ == its,
            item_responses@.len() == k,
            forall|j: int|
                0 <= j < k ==> order_item_response_matches(
                    *store,
                    its[j],
                    #[trigger] item_responses@[j],
                ),
        decreases its.len() - k,
    {
        let it = items[k];
        let product_name = lookup_product_name(store, it.product_id);
        item_responses.push(
            OrderItemResponse {
                order_id: it.order_id,
                product_id: it.product_id,
                quantity: it.quantity,
                unit_price: it.unit_price,
                product_name: Option::Some(product_name),
            },
        );
        k = k + 1;
    }
    Result::Ok(
        OrderDetailsResponse {
            order_id: order.order_id,
            customer_id: order.customer_id,
            order_date: order.order_date,
            status: order.status,
            total_amount: order.total_amount,
            shipping_address: order.shipping_address,
            customer_name: Option::Some(name),
            items: item_responses,
        },
    )
}

/// All shipments, each joined with its supplier's company name.
pub fn get_shipments(store: &Store) -> (r: Vec<ShipmentResponse>)
    requires
        store.wf(),
    ensures
        r@.len() == store.shipments@.len(),
        forall|i: int|
            0 <= i < r@.len() ==> shipment_response_matches(
                *store,
                store.shipments@[i],
                #[trigger] r@[i],
            ),
{
    let mut out: Vec<ShipmentResponse> = Vec::new();
    let mut i: usize = 0;
    while i < store.shipments.len()
        invariant
            store.wf(),
            i <= store.shipments@.len(),
            out@.len() == i,
            forall|j: int|
                0 <= j < i ==> shipment_response_matches(
                    *store,
                    store.shipments@[j],
                    #[trigger] out@[j],
                ),
        decreases store.shipments@.len() - i,
    {
        out.push(shipment_response(store, &store.shipments[i]));
        i = i + 1;
    }
    out
}

/// One shipment joined with its supplier's company name, or `NotFound`.
pub fn get_shipment(store: &Store, id: i32) -> (r: Result<ShipmentResponse, AppError>)
    requires
        store.wf(),
    ensures
        match r {
            Result::Ok(resp) => has_shipment(store.shipments@, id) && shipment_response_matches(
                *store,
                store.shipments@[shipment_index(store.shipments@, id)],
                resp,
            ),
            Result::Err(e) => e is NotFound && !has_shipment(store.shipments@, id),
        },
{
    let sh = match crate::shipment_service::ShipmentService::find_by_id(store, id) {
        Result::Ok(s) => s,
        Result::Err(e) => {
            return Result::Err(e);
        },
    };
    Result::Ok(shipment_response(store, &sh))
}

/// What the shipment-details read returns for a shipment that exists.
pub open spec fn shipment_details_matches(s: Store, id: i32, d: ShipmentDetailsResponse) -> bool {
    let sh = s.shipments@[shipment_index(s.shipments@, id)];
    let its = shipment_items_of(s.shipment_items@, id);
    &&& d.shipment_id == sh.shipment_id
    &&& d.supplier_id == sh.supplier_id
    &&& d.shipment_date == sh.shipment_date
    &&& d.expected_delivery_date == sh.expected_delivery_date
    &&& d.status == sh.status
    &&& d.total_cost == sh.total_cost
    &&& (d.supplier_name matches Option::Some(n) && n@ == supplier_display_name(
        s.suppliers@,
        sh.supplier_id,
    ))
    &&& d.items@.len() == its.len()
    &&& forall|k: int|
        0 <= k < its.len() ==> shipment_item_response_matches(s, its[k], #[trigger] d.items@[k])
}

/// One shipment with its item rows, each joined with its product's name
/// (empty when the product is gone), or `NotFound`.
#[verifier::loop_isolation(false)]
pub fn get_shipment_details(store: &Store, id: i32) -> (r: Result<
    ShipmentDetailsResponse,
    AppError,
>)
    requires
        store.wf(),
    ensures
        match r {
            Result::Ok(d) => has_shipment(store.shipments@, id) && shipment_details_matches(
                *store,
                id,
                d,
            ),
            Result::Err(e) => e is NotFound && !has_shipment(store.shipments@, id),
        },
{
    let (shipment, items) = match crate::shipment_service::ShipmentService::find_with_details(
        store,
        id,
    ) {
        Result::Ok(p) => p,
        Result::Err(e) => {
            return Result::Err(e);
        },
    };
    let supplier_name = lookup_supplier_name(store, shipment.supplier_id);
    let ghost its = shipment_items_of(store.shipment_items@, id);
    let mut item_responses: Vec<ShipmentItemResponse> = Vec::new();
    let mut k: usize = 0;
    while k < items.len()
        invariant
            k <= its.len(),
            items@ == its,
            item_responses@.len() == k,
            forall|j: int|
                0 <= j < k ==> shipment_item_response_matches(
                    *store,
                    its[j],
                    #[trigger] item_responses@[j],
                ),
        decreases its.len() - k,
    {
        let it = items[k];
        let product_name = lookup_product_name(store, it.product_id);
        item_responses.push(
            ShipmentItemResponse {
                shipment_id: it.shipment_id,
                product_id: it.product_id,
                quantity: it.quantity,
                unit_cost: it.unit_cost,
                product_name: Option::Some(product_name),
            },
        );
        k = k + 1;
    }
    Result::Ok(
        ShipmentDetailsResponse {
            shipment_id: shipment.shipment_id,
            supplier_id: shipment.supplier_id,
            shipment_date: shipment.shipment_date,
            expected_delivery_date: shipment.expected_delivery_date,
            status: shipment.status,
            total_cost: shipment.total_cost,
            supplier_name: Option::Some(supplier_name),
            items: item_responses,
        },
    )
}

/// All products, each joined with its category and supplier names.
pub fn get_products(store: &Store) -> (r: Vec<ProductResponse>)
    requires
        store.wf(),
    ensures
        r@.len() == store.products@.len(),
        forall|i: int|
            0 <= i < r@.len() ==> product_response_matches(
                *store,
                store.products@[i],
                #[trigger] r@[i],
            ),
{
    let mut out: Vec<ProductResponse> = Vec::new();
    let mut i: usize = 0;
    while i < store.products.len()
        invariant
            store.wf(),
            i <= store.products@.len(),
            out@.len() == i,
            forall|j: int|
                0 <= j < i ==> product_response_matches(
                    *store,
                    store.products@[j],
                    #[trigger] out@[j],
                ),
        decreases store.products@.len() - i,
    {
        out.push(product_response(store, &store.products[i]));
        i = i + 1;
    }
    out
}

/// One product joined with its category and supplier names, or `NotFound`.
pub fn get_product(store: &Store, id: i32) -> (r: Result<ProductResponse, AppError>)
    requires
        store.wf(),
    ensures
        match r {
            Result::Ok(resp) => has_product(store.products@, id) && product_response_matches(
                *store,
                store.products@[product_index(store.products@, id)],
                resp,
            ),
            Result::Err(e) => e is NotFound && !has_product(store.products@, id),
        },
{
    let p = match crate::product_service::ProductService::find_by_id(store, id) {
        Result::Ok(p) => p,
        Result::Err(e) => {
            return Result::Err(e);
        },
    };
    Result::Ok(product_response(store, &p))
}

/// All customers.
pub fn get_customers(store: &Store) -> (r: Vec<CustomerResponse>)
    ensures
        r@.len() == store.customers@.len(),
        forall|i: int|
            0 <= i < r@.len() ==> customer_response_matches(
                store.customers@[i],
                #[trigger] r@[i],
            ),
{
    let mut out: Vec<CustomerResponse> = Vec::new();
    let mut i: usize = 0;
    while i < store.customers.len()
        invariant
            i <= store.customers@.len(),
            out@.len() == i,
            forall|j: int|
                0 <= j < i ==> customer_response_matches(
                    store.customers@[j],
                    #[trigger] out@[j],
                ),
        decreases store.customers@.len() - i,
    {
        out.push(customer_response(&store.customers[i]));
        i = i + 1;
    }
    out
}

/// One customer, or `NotFound`.
pub fn get_customer(store: &Store, id: i32) -> (r: Result<CustomerResponse, AppError>)
    requires
        store.wf(),
    ensures
        match r {
            Result::Ok(resp) => has_customer(store.customers@, id) && customer_response_matches(
                store.customers@[customer_index(store.customers@, id)],
                resp,
            ),
            Result::Err(e) => e is NotFound && !has_customer(store.customers@, id),
        },
{
    let c = match crate::customer_service::CustomerService::find_by_id(store, id) {
        Result::Ok(c) => c,
        Result::Err(e) => {
            return Result::Err(e);
        },
    };
    Result::Ok(customer_response(&c))
}

/// One customer together with its orders, each joined with that
/// customer's display name, or `NotFound`.
#[verifier::loop_isolation(false)]
pub fn get_customer_orders(store: &Store, id: i32) -> (r: Result<
    (CustomerResponse, Vec<OrderResponse>),
    AppError,
>)
    requires
        store.wf(),
    ensures
        match r {
            Result::Ok(p) => {
                &&& has_customer(store.customers@, id)
                &&& customer_response_matches(
                    store.customers@[customer_index(store.customers@, id)],
                    p.0,
                )
                &&& p.1@.len() == crate::model::orders_of_customer(store.orders@, id).len()
                &&& forall|k: int|
                    0 <= k < crate::model::orders_of_customer(store.orders@, id).len()
                        ==> order_response_matches(
                        *store,
                        crate::model::orders_of_customer(store.orders@, id)[k],
                        #[trigger] p.1@[k],
                    )
            },
            Result::Err(e) => e is NotFound && !has_customer(store.customers@, id),
        },
{
    let (customer, orders) = match crate::customer_service::CustomerService::find_with_orders(
        store,
        id,
    ) {
        Result::Ok(p) => p,
        Result::Err(e) => {
            return Result::Err(e);
        },
    };
    let ghost os = crate::model::orders_of_customer(store.orders@, id);
    let mut order_responses: Vec<OrderResponse> = Vec::new();
    let mut k: usize = 0;
    while k < orders.len()
        invariant
            k <= os.len(),
            orders@ == os,
            order_responses@.len() == k,
            forall|j: int|
                0 <= j < k ==> order_response_matches(*store, os[j], #[trigger] order_responses@[j]),
        decreases os.len() - k,
    {
        order_responses.push(order_response(store, &orders[k]));
        k = k + 1;
    }
    Result::Ok((customer_response(&customer), order_responses))
}

/// All suppliers.
pub fn get_suppliers(store: &Store) -> (r: Vec<SupplierResponse>)
    ensures
        r@.len() == store.suppliers@.len(),
        forall|i: int|
            0 <= i < r@.len() ==> supplier_response_matches(
                store.suppliers@[i],
                #[trigger] r@[i],
            ),
{
    let mut out: Vec<SupplierResponse> = Vec::new();
    let mut i: usize = 0;
    while i < store.suppliers.len()
        invariant
            i <= store.suppliers@.len(),
            out@.len() == i,
            forall|j: int|
                0 <= j < i ==> supplier_response_matches(
                    store.suppliers@[j],
                    #[trigger] out@[j],
                ),
        decreases store.suppliers@.len() - i,
    {
        out.push(supplier_response(&store.suppliers[i]));
        i = i + 1;
    }
    out
}

/// One supplier, or `NotFound`.
pub fn get_supplier(store: &Store, id: i32) -> (r: Result<SupplierResponse, AppError>)
    requires
        store.wf(),
    ensures
        match r {
            Result::Ok(resp) => has_supplier(store.suppliers@, id) && supplier_response_matches(
                store.suppliers@[supplier_index(store.suppliers@, id)],
                resp,
            ),
            Result::Err(e) => e is NotFound && !has_supplier(store.suppliers@, id),
        },
{
    let s = match crate::supplier_service::SupplierService::find_by_id(store, id) {
        Result::Ok(s) => s,
        Result::Err(e) => {
            return Result::Err(e);
        },
    };
    Result::Ok(supplier_response(&s))
}

/// What the supplier-products read returns for each product of the
/// supplier: the product's own fields, no category name, and the given
/// supplier's company name.
pub open spec fn supplier_product_matches(
    p: Product,
    company: Seq<char>,
    resp: ProductResponse,
) -> bool {
    &&& resp.product_id == p.product_id
    &&& resp.name == p.name
    &&& resp.description == p.description
    &&& resp.price == p.price
    &&& resp.stock_quantity == p.stock_quantity
    &&& resp.category_id == p.category_id
    &&& resp.supplier_id == p.supplier_id
    &&& resp.category_name is None
    &&& (resp.supplier_name matches Option::Some(n) && n@ == company)
}

/// One supplier together with its products; each product response names
/// the given supplier and carries no category name, as the endpoint
/// serves it.
#[verifier::loop_isolation(false)]
pub fn get_supplier_products(store: &Store, id: i32) -> (r: Result<
    (SupplierResponse, Vec<ProductResponse>),
    AppError,
>)
    requires
        store.wf(),
    ensures
        match r {
            Result::Ok(p) => {
                &&& has_supplier(store.suppliers@, id)
                &&& supplier_response_matches(
                    store.suppliers@[supplier_index(store.suppliers@, id)],
                    p.0,
                )
                &&& p.1@.len() == crate::model::products_of_supplier(store.products@, id).len()
                &&& forall|k: int|
                    0 <= k < crate::model::products_of_supplier(store.products@, id).len()
                        ==> supplier_product_matches(
                        crate::model::products_of_supplier(store.products@, id)[k],
                        store.suppliers@[supplier_index(store.suppliers@, id)].company_name@,
                        #[trigger] p.1@[k],
                    )
            },
            Result::Err(e) => e is NotFound && !has_supplier(store.suppliers@, id),
        },
{
    let (supplier, products) = match crate::supplier_service::SupplierService::find_with_products(
        store,
        id,
    ) {
        Result::Ok(p) => p,
        Result::Err(e) => {
            return Result::Err(e);
        },
    };
    let ghost ps = crate::model::products_of_supplier(store.products@, id);
    let mut product_responses: Vec<ProductResponse> = Vec::new();
    let mut k: usize = 0;
    while k < products.len()
        invariant
            k <= ps.len(),
            products@ == ps,
            supplier == store.suppliers@[supplier_index(store.suppliers@, id)],
            product_responses@.len() == k,
            forall|j: int|
                0 <= j < k ==> supplier_product_matches(
                    ps[j],
                    supplier.company_name@,
                    #[trigger] product_responses@[j],
                ),
        decreases ps.len() - k,
    {
        let p = &products[k];
        product_responses.push(
            ProductResponse {
                product_id: p.product_id,
                name: p.name.clone(),
                description: crate::model::copy_opt_string(&p.description),
                price: p.price,
                stock_quantity: p.stock_quantity,
                category_id: p.category_id,
                supplier_id: p.supplier_id,
                category_name: Option::None,
                supplier_name: Option::Some(supplier.company_name.clone()),
            },
        );
        k = k + 1;
    }
    Result::Ok((supplier_response(&supplier), product_responses))
}

/// All categories.
pub fn get_categories(store: &Store) -> (r: Vec<CategoryResponse>)
    ensures
        r@.len() == store.categories@.len(),
        forall|i: int|
            0 <= i < r@.len() ==> category_response_matches(
                store.categories@[i],
                #[trigger] r@[i],
            ),
{
    let mut out: Vec<CategoryResponse> = Vec::new();
    let mut i: usize = 0;
    while i < store.categories.len()
        invariant
            i <= store.categories@.len(),
            out@.len() == i,
            forall|j: int|
                0 <= j < i ==> category_response_matches(
                    store.categories@[j],
                    #[trigger] out@[j],
                ),
        decreases store.categories@.len() - i,
    {
        out.push(category_response(&store.categories[i]));
        i = i + 1;
    }
    out
}

/// One category, or `NotFound`.
pub fn get_category(store: &Store, id: i32) -> (r: Result<CategoryResponse, AppError>)
    requires
        store.wf(),
    ensures
        match r {
            Result::Ok(resp) => has_category(store.categories@, id) && category_response_matches(
                store.categories@[category_index(store.categories@, id)],
                resp,
            ),
            Result::Err(e) => e is NotFound && !has_category(store.categories@, id),
        },
{
    let c = match crate::category_service::CategoryService::find_by_id(store, id) {
        Result::Ok(c) => c,
        Result::Err(e) => {
            return Result::Err(e);
        },
    };
    Result::Ok(category_response(&c))
}

} // verus!
