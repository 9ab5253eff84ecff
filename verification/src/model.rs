//! Row types of the back-office store and the spec-level helpers that
//! contracts use to speak about tables of rows.
//!
//! Monetary amounts are carried as unsigned minor currency units (cents);
//! instants are carried as Unix timestamps in seconds and calendar dates as
//! day numbers. Each row type that owns heap data has a `duplicate` method
//! whose contract states that the copy equals the original.

use vstd::prelude::*;

verus! {

/// A catalog product. `stock_quantity` is the authoritative stock counter;
/// the store keeps it non-negative.
pub struct Product {
    pub product_id: i32,
    pub name: String,
    pub description: Option<String>,
    pub price: u64,
    pub stock_quantity: i32,
    pub category_id: i32,
    pub supplier_id: i32,
}

/// A customer order header. Its item rows live in the order-items table.
pub struct Order {
    pub order_id: i32,
    pub customer_id: i32,
    pub order_date: i64,
    pub status: String,
    pub total_amount: u64,
    pub shipping_address: String,
}

/// One line of an order: a product, a quantity, and the unit price
/// snapshotted when the order was created.
#[derive(Clone, Copy, PartialEq, Eq, Structural)]
pub struct OrderItem {
    pub order_id: i32,
    pub product_id: i32,
    pub quantity: i32,
    pub unit_price: u64,
}

/// A supplier shipment header. Its item rows live in the shipment-items table.
pub struct Shipment {
    pub shipment_id: i32,
    pub supplier_id: i32,
    pub shipment_date: i64,
    pub expected_delivery_date: i64,
    pub status: String,
    pub total_cost: u64,
}

/// One line of a shipment: a product, a quantity, and the unit cost
/// snapshotted when the shipment was created.
#[derive(Clone, Copy, PartialEq, Eq, Structural)]
pub struct ShipmentItem {
    pub shipment_id: i32,
    pub product_id: i32,
    pub quantity: i32,
    pub unit_cost: u64,
}

pub struct Category {
    pub category_id: i32,
    pub name: String,
    pub description: Option<String>,
}

pub struct Customer {
    pub customer_id: i32,
    pub first_name: String,
    pub last_name: String,
    pub email: String,
    pub phone: Option<String>,
    pub registration_date: i64,
    pub address: Option<String>,
}

pub struct Supplier {
    pub supplier_id: i32,
    pub company_name: String,
    pub contact_name: Option<String>,
    pub email: Option<String>,
    pub phone: Option<String>,
    pub address: Option<String>,
}

/// Copies an optional string, preserving the value.
pub fn copy_opt_string(s: &Option<String>) -> (r: Option<String>)
    ensures
        r == *s,
{
    match s {
        Option::Some(v) => Option::Some(v.clone()),
        Option::None => Option::None,
    }
}

impl Product {
    pub fn duplicate(&self) -> (r: Product)
        ensures
            r == *self,
    {
        Product {
            product_id: self.product_id,
            name: self.name.clone(),
            description: copy_opt_string(&self.description),
            price: self.price,
            stock_quantity: self.stock_quantity,
            category_id: self.category_id,
            supplier_id: self.supplier_id,
        }
    }
}

impl Order {
    pub fn duplicate(&self) -> (r: Order)
        ensures
            r == *self,
    {
        Order {
            order_id: self.order_id,
            customer_id: self.customer_id,
            order_date: self.order_date,
            status: self.status.clone(),
            total_amount: self.total_amount,
            shipping_address: self.shipping_address.clone(),
        }
    }
}

impl Shipment {
    pub fn duplicate(&self) -> (r: Shipment)
        ensures
            r == *self,
    {
        Shipment {
            shipment_id: self.shipment_id,
            supplier_id: self.supplier_id,
            shipment_date: self.shipment_date,
            expected_delivery_date: self.expected_delivery_date,
            status: self.status.clone(),
            total_cost: self.total_cost,
        }
    }
}

impl Category {
    pub fn duplicate(&self) -> (r: Category)
        ensures
            r == *self,
    {
        Category {
            category_id: self.category_id,
            name: self.name.clone(),
            description: copy_opt_string(&self.description),
        }
    }
}

impl Customer {
    pub fn duplicate(&self) -> (r: Customer)
        ensures
            r == *self,
    {
        Customer {
            customer_id: self.customer_id,
            first_name: self.first_name.clone(),
            last_name: self.last_name.clone(),
            email: self.email.clone(),
            phone: copy_opt_string(&self.phone),
            registration_date: self.registration_date,
            address: copy_opt_string(&self.address),
        }
    }
}

impl Supplier {
    pub fn duplicate(&self) -> (r: Supplier)
        ensures
            r == *self,
    {
        Supplier {
            supplier_id: self.supplier_id,
            company_name: self.company_name.clone(),
            contact_name: copy_opt_string(&self.contact_name),
            email: copy_opt_string(&self.email),
            phone: copy_opt_string(&self.phone),
            address: copy_opt_string(&self.address),
        }
    }
}

// ---------------------------------------------------------------------------
// Spec-level helpers over the products table
// ---------------------------------------------------------------------------

/// No two rows share a product id.
pub open spec fn product_ids_unique(ps: Seq<Product>) -> bool {
    forall|i: int, j: int|
        0 <= i < j < ps.len() ==> ps[i].product_id != ps[j].product_id
}

/// Every row's stock counter is non-negative.
pub open spec fn stocks_nonneg(ps: Seq<Product>) -> bool {
    forall|i: int| 0 <= i < ps.len() ==> ps[i].stock_quantity >= 0
}

/// Some row carries this product id.
pub open spec fn has_product(ps: Seq<Product>, id: i32) -> bool {
    exists|i: int| 0 <= i < ps.len() && ps[i].product_id == id
}

/// The index of the row carrying this product id (meaningful when
/// `has_product` holds and ids are unique).
pub open spec fn product_index(ps: Seq<Product>, id: i32) -> int {
    choose|i: int| 0 <= i < ps.len() && ps[i].product_id == id
}

/// The stock counter of the row carrying this product id.
pub open spec fn stock_of(ps: Seq<Product>, id: i32) -> int {
    ps[product_index(ps, id)].stock_quantity as int
}

/// The same product row with its stock counter replaced.
pub open spec fn with_stock(p: Product, s: i32) -> Product {
    Product {
        product_id: p.product_id,
        name: p.name,
        description: p.description,
        price: p.price,
        stock_quantity: s,
        category_id: p.category_id,
        supplier_id: p.supplier_id,
    }
}

/// The products table after adjusting one product's stock counter by
/// `delta` (meaningful when the product is present and the sum stays
/// within `i32`).
pub open spec fn stock_adjusted(ps: Seq<Product>, id: i32, delta: int) -> Seq<Product> {
    let i = product_index(ps, id);
    ps.update(i, with_stock(ps[i], (stock_of(ps, id) + delta) as i32))
}

// ---------------------------------------------------------------------------
// Spec-level helpers over header and item tables
// ---------------------------------------------------------------------------

pub open spec fn order_ids_unique(os: Seq<Order>) -> bool {
    forall|i: int, j: int| 0 <= i < j < os.len() ==> os[i].order_id != os[j].order_id
}

pub open spec fn has_order(os: Seq<Order>, id: i32) -> bool {
    exists|i: int| 0 <= i < os.len() && os[i].order_id == id
}

pub open spec fn order_index(os: Seq<Order>, id: i32) -> int {
    choose|i: int| 0 <= i < os.len() && os[i].order_id == id
}

pub open spec fn shipment_ids_unique(ss: Seq<Shipment>) -> bool {
    forall|i: int, j: int| 0 <= i < j < ss.len() ==> ss[i].shipment_id != ss[j].shipment_id
}

pub open spec fn has_shipment(ss: Seq<Shipment>, id: i32) -> bool {
    exists|i: int| 0 <= i < ss.len() && ss[i].shipment_id == id
}

pub open spec fn shipment_index(ss: Seq<Shipment>, id: i32) -> int {
    choose|i: int| 0 <= i < ss.len() && ss[i].shipment_id == id
}

pub open spec fn category_ids_unique(cs: Seq<Category>) -> bool {
    forall|i: int, j: int| 0 <= i < j < cs.len() ==> cs[i].category_id != cs[j].category_id
}

pub open spec fn has_category(cs: Seq<Category>, id: i32) -> bool {
    exists|i: int| 0 <= i < cs.len() && cs[i].category_id == id
}

pub open spec fn category_index(cs: Seq<Category>, id: i32) -> int {
    choose|i: int| 0 <= i < cs.len() && cs[i].category_id == id
}

pub open spec fn customer_ids_unique(cs: Seq<Customer>) -> bool {
    forall|i: int, j: int| 0 <= i < j < cs.len() ==> cs[i].customer_id != cs[j].customer_id
}

pub open spec fn has_customer(cs: Seq<Customer>, id: i32) -> bool {
    exists|i: int| 0 <= i < cs.len() && cs[i].customer_id == id
}

pub open spec fn customer_index(cs: Seq<Customer>, id: i32) -> int {
    choose|i: int| 0 <= i < cs.len() && cs[i].customer_id == id
}

pub open spec fn supplier_ids_unique(ss: Seq<Supplier>) -> bool {
    forall|i: int, j: int| 0 <= i < j < ss.len() ==> ss[i].supplier_id != ss[j].supplier_id
}

pub open spec fn has_supplier(ss: Seq<Supplier>, id: i32) -> bool {
    exists|i: int| 0 <= i < ss.len() && ss[i].supplier_id == id
}

pub open spec fn supplier_index(ss: Seq<Supplier>, id: i32) -> int {
    choose|i: int| 0 <= i < ss.len() && ss[i].supplier_id == id
}

/// Item rows of one order, in table order.
pub open spec fn order_items_of(items: Seq<OrderItem>, order_id: i32) -> Seq<OrderItem> {
    items.filter(|it: OrderItem| it.order_id == order_id)
}

/// Item rows of one shipment, in table order.
pub open spec fn shipment_items_of(items: Seq<ShipmentItem>, shipment_id: i32) -> Seq<ShipmentItem> {
    items.filter(|it: ShipmentItem| it.shipment_id == shipment_id)
}

/// The order-items table without the rows of one order.
pub open spec fn order_items_without(items: Seq<OrderItem>, order_id: i32) -> Seq<OrderItem> {
    items.filter(|it: OrderItem| it.order_id != order_id)
}

/// The shipment-items table without the rows of one shipment.
pub open spec fn shipment_items_without(
    items: Seq<ShipmentItem>,
    shipment_id: i32,
) -> Seq<ShipmentItem> {
    items.filter(|it: ShipmentItem| it.shipment_id != shipment_id)
}

/// Order headers belonging to one customer, in table order.
pub open spec fn orders_of_customer(os: Seq<Order>, customer_id: i32) -> Seq<Order> {
    os.filter(|o: Order| o.customer_id == customer_id)
}

/// Product rows belonging to one supplier, in table order.
pub open spec fn products_of_supplier(ps: Seq<Product>, supplier_id: i32) -> Seq<Product> {
    ps.filter(|p: Product| p.supplier_id == supplier_id)
}

/// Every element of a filtered sequence occurs in the original sequence.
pub proof fn lemma_filter_member<A>(s: Seq<A>, pred: spec_fn(A) -> bool, i: int)
    requires
        0 <= i < s.filter(pred).len(),
    ensures
        s.contains(s.filter(pred)[i]),
    decreases s.len(),
{
    reveal_with_fuel(Seq::filter, 2);
    s.lemma_filter_len(pred);
    if s.len() == 0 {
    } else {
        let prefix = s.drop_last();
        prefix.lemma_filter_len(pred);
        let target = s.filter(pred)[i];
        if pred(s.last()) && i == s.filter(pred).len() - 1 {
            assert(target == s.last());
            assert(s[s.len() - 1] == target);
        } else {
            assert(prefix.filter(pred)[i] == target);
            lemma_filter_member(prefix, pred, i);
            let u = choose|u: int| 0 <= u < prefix.len() && prefix[u] == target;
            assert(s[u] == target);
        }
    }
}

/// A pairwise relation that holds across a sequence still holds across the
/// sequence filtered by any predicate: two distinct positions of the
/// filtered sequence come from two distinct positions of the original.
pub proof fn lemma_filter_pairwise<A>(
    s: Seq<A>,
    pred: spec_fn(A) -> bool,
    rel: spec_fn(A, A) -> bool,
    i: int,
    j: int,
)
    requires
        forall|a: int, b: int| #![trigger s[a], s[b]] 0 <= a < b < s.len() ==> rel(s[a], s[b]),
        0 <= i < j < s.filter(pred).len(),
    ensures
        rel(s.filter(pred)[i], s.filter(pred)[j]),
    decreases s.len(),
{
    reveal_with_fuel(Seq::filter, 2);
    s.lemma_filter_len(pred);
    if s.len() == 0 {
    } else {
        let prefix = s.drop_last();
        prefix.lemma_filter_len(pred);
        if pred(s.last()) {
            if j < s.filter(pred).len() - 1 {
                lemma_filter_pairwise(prefix, pred, rel, i, j);
            } else {
                // The position j row is the last row; the position i row
                // comes from the prefix.
                let fi = s.filter(pred)[i];
                assert(prefix.filter(pred)[i] == fi);
                lemma_filter_member(prefix, pred, i);
                let u = choose|u: int| 0 <= u < prefix.len() && prefix[u] == fi;
                assert(s[u] == fi);
                assert(s[s.len() - 1] == s.last());
            }
        } else {
            lemma_filter_pairwise(prefix, pred, rel, i, j);
        }
    }
}

/// Whether some item row (of either document kind) references this product.
pub open spec fn product_referenced(
    order_items: Seq<OrderItem>,
    shipment_items: Seq<ShipmentItem>,
    product_id: i32,
) -> bool {
    ||| exists|i: int| 0 <= i < order_items.len() && order_items[i].product_id == product_id
    ||| exists|i: int|
        0 <= i < shipment_items.len() && shipment_items[i].product_id == product_id
}

} // verus!
