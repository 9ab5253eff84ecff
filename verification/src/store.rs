//! The in-memory document store: every table of the back office, together
//! with the well-formedness invariant that each committed operation
//! preserves.
//!
//! The store plays the role of the relational schema: id columns are unique,
//! item rows reference existing headers and products, quantities are
//! positive, stock counters never go negative, and a shipment's expected
//! delivery date never precedes its shipment date. Services take the store
//! through `&mut`, so each operation holds exclusive access for its whole
//! duration: an operation is a transaction, and a stock check and the write
//! that follows it cannot interleave with another operation.

use vstd::prelude::*;

use crate::model::Category;
use crate::model::Customer;
use crate::model::Order;
use crate::model::OrderItem;
use crate::model::Product;
use crate::model::Shipment;
use crate::model::ShipmentItem;
use crate::model::Supplier;
use crate::model::category_ids_unique;
use crate::model::customer_ids_unique;
use crate::model::has_category;
use crate::model::has_customer;
use crate::model::has_order;
use crate::model::has_product;
use crate::model::has_shipment;
use crate::model::has_supplier;
use crate::model::order_ids_unique;
use crate::model::product_ids_unique;
use crate::model::shipment_ids_unique;
use crate::model::stocks_nonneg;
use crate::model::supplier_ids_unique;

verus! {

pub struct Store {
    pub products: Vec<Product>,
    pub orders: Vec<Order>,
    pub order_items: Vec<OrderItem>,
    pub shipments: Vec<Shipment>,
    pub shipment_items: Vec<ShipmentItem>,
    pub categories: Vec<Category>,
    pub customers: Vec<Customer>,
    pub suppliers: Vec<Supplier>,
    pub next_product_id: i32,
    pub next_order_id: i32,
    pub next_shipment_id: i32,
    pub next_category_id: i32,
    pub next_customer_id: i32,
    pub next_supplier_id: i32,
}

impl Store {
    /// Every order-item row belongs to an existing order, references an
    /// existing product, has a positive quantity, and no two rows share the
    /// composite key (order id, product id).
    pub open spec fn order_items_wf(self) -> bool {
        &&& forall|i: int|
            0 <= i < self.order_items@.len() ==> {
                &&& has_order(self.orders@, #[trigger] self.order_items@[i].order_id)
                &&& has_product(self.products@, self.order_items@[i].product_id)
                &&& self.order_items@[i].quantity > 0
            }
        &&& forall|i: int, j: int|
            #![trigger self.order_items@[i], self.order_items@[j]]
            0 <= i < j < self.order_items@.len() ==> !(self.order_items@[i].order_id
                == self.order_items@[j].order_id && self.order_items@[i].product_id
                == self.order_items@[j].product_id)
    }

    /// The shipment-item analogue of `order_items_wf`.
    pub open spec fn shipment_items_wf(self) -> bool {
        &&& forall|i: int|
            0 <= i < self.shipment_items@.len() ==> {
                &&& has_shipment(self.shipments@, #[trigger] self.shipment_items@[i].shipment_id)
                &&& has_product(self.products@, self.shipment_items@[i].product_id)
                &&& self.shipment_items@[i].quantity > 0
            }
        &&& forall|i: int, j: int|
            #![trigger self.shipment_items@[i], self.shipment_items@[j]]
            0 <= i < j < self.shipment_items@.len() ==> !(self.shipment_items@[i].shipment_id
                == self.shipment_items@[j].shipment_id && self.shipment_items@[i].product_id
                == self.shipment_items@[j].product_id)
    }

    /// Ids already assigned lie strictly below the corresponding counter.
    pub open spec fn ids_below_counters(self) -> bool {
        &&& forall|i: int|
            0 <= i < self.products@.len() ==> #[trigger] self.products@[i].product_id
                < self.next_product_id
        &&& forall|i: int|
            0 <= i < self.orders@.len() ==> #[trigger] self.orders@[i].order_id
                < self.next_order_id
        &&& forall|i: int|
            0 <= i < self.shipments@.len() ==> #[trigger] self.shipments@[i].shipment_id
                < self.next_shipment_id
        &&& forall|i: int|
            0 <= i < self.categories@.len() ==> #[trigger] self.categories@[i].category_id
                < self.next_category_id
        &&& forall|i: int|
            0 <= i < self.customers@.len() ==> #[trigger] self.customers@[i].customer_id
                < self.next_customer_id
        &&& forall|i: int|
            0 <= i < self.suppliers@.len() ==> #[trigger] self.suppliers@[i].supplier_id
                < self.next_supplier_id
    }

    /// The store invariant, preserved by every committed operation.
    pub open spec fn wf(self) -> bool {
        &&& product_ids_unique(self.products@)
        &&& stocks_nonneg(self.products@)
        &&& order_ids_unique(self.orders@)
        &&& shipment_ids_unique(self.shipments@)
        &&& category_ids_unique(self.categories@)
        &&& customer_ids_unique(self.customers@)
        &&& supplier_ids_unique(self.suppliers@)
        &&& self.order_items_wf()
        &&& self.shipment_items_wf()
        &&& forall|i: int|
            0 <= i < self.shipments@.len() ==> #[trigger] self.shipments@[i].expected_delivery_date
                >= self.shipments@[i].shipment_date
        &&& self.ids_below_counters()
    }

    /// An empty store, with id assignment starting at 1.
    pub fn new() -> (r: Store)
        ensures
            r.wf(),
            r.products@ == Seq::<Product>::empty(),
            r.orders@ == Seq::<Order>::empty(),
            r.order_items@ == Seq::<OrderItem>::empty(),
            r.shipments@ == Seq::<Shipment>::empty(),
            r.shipment_items@ == Seq::<ShipmentItem>::empty(),
            r.categories@ == Seq::<Category>::empty(),
            r.customers@ == Seq::<Customer>::empty(),
            r.suppliers@ == Seq::<Supplier>::empty(),
            r.next_product_id == 1,
            r.next_order_id == 1,
            r.next_shipment_id == 1,
            r.next_category_id == 1,
            r.next_customer_id == 1,
            r.next_supplier_id == 1,
    {
        Store {
            products: Vec::new(),
            orders: Vec::new(),
            order_items: Vec::new(),
            shipments: Vec::new(),
            shipment_items: Vec::new(),
            categories: Vec::new(),
            customers: Vec::new(),
            suppliers: Vec::new(),
            next_product_id: 1,
            next_order_id: 1,
            next_shipment_id: 1,
            next_category_id: 1,
            next_customer_id: 1,
            next_supplier_id: 1,
        }
    }
}

/// Whether a list of ids contains the given id.
pub fn id_list_contains(v: &Vec<i32>, x: i32) -> (r: bool)
    ensures
        r == v@.contains(x),
{
    let mut i: usize = 0;
    while i < v.len()
        invariant
            i <= v@.len(),
            forall|j: int| 0 <= j < i ==> v@[j] != x,
        decreases v@.len() - i,
    {
        if v[i] == x {
            return true;
        }
        i = i + 1;
    }
    false
}

/// A value-preserving copy of the products table.
pub fn duplicate_products(products: &Vec<Product>) -> (r: Vec<Product>)
    ensures
        r@ == products@,
{
    let mut out: Vec<Product> = Vec::new();
    let mut i: usize = 0;
    while i < products.len()
        invariant
            i <= products@.len(),
            out@ == products@.take(i as int),
        decreases products@.len() - i,
    {
        out.push(products[i].duplicate());
        proof {
            assert(products@.take(i + 1) =~= products@.take(i as int).push(products@[i as int]));
        }
        i = i + 1;
    }
    proof {
        assert(products@.take(products@.len() as int) =~= products@);
    }
    out
}

/// A value-preserving copy of the orders table.
pub fn duplicate_orders(orders: &Vec<Order>) -> (r: Vec<Order>)
    ensures
        r@ == orders@,
{
    let mut out: Vec<Order> = Vec::new();
    let mut i: usize = 0;
    while i < orders.len()
        invariant
            i <= orders@.len(),
            out@ == orders@.take(i as int),
        decreases orders@.len() - i,
    {
        out.push(orders[i].duplicate());
        proof {
            assert(orders@.take(i + 1) =~= orders@.take(i as int).push(orders@[i as int]));
        }
        i = i + 1;
    }
    proof {
        assert(orders@.take(orders@.len() as int) =~= orders@);
    }
    out
}

/// A value-preserving copy of the shipments table.
pub fn duplicate_shipments(shipments: &Vec<Shipment>) -> (r: Vec<Shipment>)
    ensures
        r@ == shipments@,
{
    let mut out: Vec<Shipment> = Vec::new();
    let mut i: usize = 0;
    while i < shipments.len()
        invariant
            i <= shipments@.len(),
            out@ == shipments@.take(i as int),
        decreases shipments@.len() - i,
    {
        out.push(shipments[i].duplicate());
        proof {
            assert(shipments@.take(i + 1) =~= shipments@.take(i as int).push(
                shipments@[i as int],
            ));
        }
        i = i + 1;
    }
    proof {
        assert(shipments@.take(shipments@.len() as int) =~= shipments@);
    }
    out
}

/// The index of the product row with this id, if any.
pub fn find_product_index(products: &Vec<Product>, id: i32) -> (r: Option<usize>)
    ensures
        match r {
            Option::Some(i) => i < products@.len() && products@[i as int].product_id == id,
            Option::None => !has_product(products@, id),
        },
{
    let mut i: usize = 0;
    while i < products.len()
        invariant
            i <= products@.len(),
            forall|j: int| 0 <= j < i ==> products@[j].product_id != id,
        decreases products@.len() - i,
    {
        if products[i].product_id == id {
            return Option::Some(i);
        }
        i = i + 1;
    }
    Option::None
}

/// The index of the order row with this id, if any.
pub fn find_order_index(orders: &Vec<Order>, id: i32) -> (r: Option<usize>)
    ensures
        match r {
            Option::Some(i) => i < orders@.len() && orders@[i as int].order_id == id,
            Option::None => !has_order(orders@, id),
        },
{
    let mut i: usize = 0;
    while i < orders.len()
        invariant
            i <= orders@.len(),
            forall|j: int| 0 <= j < i ==> orders@[j].order_id != id,
        decreases orders@.len() - i,
    {
        if orders[i].order_id == id {
            return Option::Some(i);
        }
        i = i + 1;
    }
    Option::None
}

/// The index of the shipment row with this id, if any.
pub fn find_shipment_index(shipments: &Vec<Shipment>, id: i32) -> (r: Option<usize>)
    ensures
        match r {
            Option::Some(i) => i < shipments@.len() && shipments@[i as int].shipment_id == id,
            Option::None => !has_shipment(shipments@, id),
        },
{
    let mut i: usize = 0;
    while i < shipments.len()
        invariant
            i <= shipments@.len(),
            forall|j: int| 0 <= j < i ==> shipments@[j].shipment_id != id,
        decreases shipments@.len() - i,
    {
        if shipments[i].shipment_id == id {
            return Option::Some(i);
        }
        i = i + 1;
    }
    Option::None
}

/// The index of the category row with this id, if any.
pub fn find_category_index(categories: &Vec<Category>, id: i32) -> (r: Option<usize>)
    ensures
        match r {
            Option::Some(i) => i < categories@.len() && categories@[i as int].category_id == id,
            Option::None => !has_category(categories@, id),
        },
{
    let mut i: usize = 0;
    while i < categories.len()
        invariant
            i <= categories@.len(),
            forall|j: int| 0 <= j < i ==> categories@[j].category_id != id,
        decreases categories@.len() - i,
    {
        if categories[i].category_id == id {
            return Option::Some(i);
        }
        i = i + 1;
    }
    Option::None
}

/// The index of the customer row with this id, if any.
pub fn find_customer_index(customers: &Vec<Customer>, id: i32) -> (r: Option<usize>)
    ensures
        match r {
            Option::Some(i) => i < customers@.len() && customers@[i as int].customer_id == id,
            Option::None => !has_customer(customers@, id),
        },
{
    let mut i: usize = 0;
    while i < customers.len()
        invariant
            i <= customers@.len(),
            forall|j: int| 0 <= j < i ==> customers@[j].customer_id != id,
        decreases customers@.len() - i,
    {
        if customers[i].customer_id == id {
            return Option::Some(i);
        }
        i = i + 1;
    }
    Option::None
}

/// The index of the supplier row with this id, if any.
pub fn find_supplier_index(suppliers: &Vec<Supplier>, id: i32) -> (r: Option<usize>)
    ensures
        match r {
            Option::Some(i) => i < suppliers@.len() && suppliers@[i as int].supplier_id == id,
            Option::None => !has_supplier(suppliers@, id),
        },
{
    let mut i: usize = 0;
    while i < suppliers.len()
        invariant
            i <= suppliers@.len(),
            forall|j: int| 0 <= j < i ==> suppliers@[j].supplier_id != id,
        decreases suppliers@.len() - i,
    {
        if suppliers[i].supplier_id == id {
            return Option::Some(i);
        }
        i = i + 1;
    }
    Option::None
}

} // verus!
