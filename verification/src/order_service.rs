//! Order Transaction Processor: sells stock.
//!
//! Creating an order inserts the header and its item rows and subtracts
//! each line's quantity from the referenced product's stock, all or
//! nothing: the first failing line discards the whole operation and the
//! store is left exactly as it was. Stock is adjusted on a scratch copy of
//! the products table and written back only on commit, so no partial
//! effect is ever observable.
//!
//! Updating an order patches the header and, when a replacement item list
//! is supplied, wholesale-replaces the order's item rows in the same
//! operation. A deliberate design decision, stated in the contracts:
//! neither update nor delete re-validates or reverses the stock effects of
//! the rows they replace or remove; stock moves only when a document is
//! created.

use vstd::prelude::*;

use crate::dtos::OrderCreate;
use crate::dtos::OrderItemCreate;
use crate::dtos::OrderUpdate;
use crate::error::AppError;
use crate::model::Order;
use crate::model::OrderItem;
use crate::model::Product;
use crate::model::has_order;
use crate::model::has_product;
use crate::model::order_index;
use crate::model::order_items_of;
use crate::model::order_items_without;
use crate::model::stock_adjusted;
use crate::model::stock_of;
use crate::store::Store;

verus! {

/// The outcome of running a list of order lines against a products table,
/// line by line in the order supplied.
pub enum ItemsOutcome {
    /// Every line passed; `products` is the table with each line's
    /// quantity subtracted from its product's stock.
    Accepted { products: Seq<Product> },
    /// A line's quantity was not positive.
    RejectedQuantity,
    /// A line repeated a product already used by an earlier line, which
    /// would collide with the items table's composite key.
    RejectedDuplicate,
    /// A line referenced a product id not present in the table.
    RejectedMissing,
    /// A line asked for more than its product's current stock.
    RejectedStock,
}

/// Runs order lines left to right: the first failing check decides the
/// outcome, and each accepted line's quantity is subtracted from its
/// product's stock before the next line is examined. `seen` holds the
/// product ids already claimed by earlier lines.
pub open spec fn apply_order_items(
    ps: Seq<Product>,
    seen: Seq<i32>,
    items: Seq<OrderItemCreate>,
) -> ItemsOutcome
    decreases items.len(),
{
    if items.len() == 0 {
        ItemsOutcome::Accepted { products: ps }
    } else {
        let it = items[0];
        if it.quantity <= 0 {
            ItemsOutcome::RejectedQuantity
        } else if seen.contains(it.product_id) {
            ItemsOutcome::RejectedDuplicate
        } else if !has_product(ps, it.product_id) {
            ItemsOutcome::RejectedMissing
        } else if stock_of(ps, it.product_id) < it.quantity {
            ItemsOutcome::RejectedStock
        } else {
            apply_order_items(
                stock_adjusted(ps, it.product_id, -(it.quantity as int)),
                seen.push(it.product_id),
                items.drop_first(),
            )
        }
    }
}

/// The outcome of checking a replacement item list without touching
/// stock: quantities must be positive, products must exist, and no two
/// lines may share a product.
pub enum ItemsCheck {
    Accepted,
    RejectedQuantity,
    RejectedDuplicate,
    RejectedMissing,
}

/// Checks replacement order lines left to right; the first failing check
/// decides the outcome. Stock is neither examined nor changed.
pub open spec fn check_order_items(
    ps: Seq<Product>,
    seen: Seq<i32>,
    items: Seq<OrderItemCreate>,
) -> ItemsCheck
    decreases items.len(),
{
    if items.len() == 0 {
        ItemsCheck::Accepted
    } else {
        let it = items[0];
        if it.quantity <= 0 {
            ItemsCheck::RejectedQuantity
        } else if seen.contains(it.product_id) {
            ItemsCheck::RejectedDuplicate
        } else if !has_product(ps, it.product_id) {
            ItemsCheck::RejectedMissing
        } else {
            check_order_items(ps, seen.push(it.product_id), items.drop_first())
        }
    }
}

/// The item rows an accepted request stores for one order.
pub open spec fn order_item_rows(oid: i32, items: Seq<OrderItemCreate>) -> Seq<OrderItem> {
    items.map_values(
        |it: OrderItemCreate|
            OrderItem {
                order_id: oid,
                product_id: it.product_id,
                quantity: it.quantity,
                unit_price: it.unit_price,
            },
    )
}

/// An order header with an update request's present fields applied.
pub open spec fn patched_order(o: Order, dto: OrderUpdate) -> Order {
    Order {
        order_id: o.order_id,
        customer_id: o.customer_id,
        order_date: o.order_date,
        status: match dto.status {
            Option::Some(s) => s,
            Option::None => o.status,
        },
        total_amount: match dto.total_amount {
            Option::Some(t) => t,
            Option::None => o.total_amount,
        },
        shipping_address: match dto.shipping_address {
            Option::Some(a) => a,
            Option::None => o.shipping_address,
        },
    }
}

/// The error an order-creation request is owed for each rejected outcome.
pub open spec fn order_create_error(pre: Store, dto: OrderCreate, e: AppError) -> bool {
    if pre.next_order_id == i32::MAX {
        e is Storage
    } else {
        match apply_order_items(pre.products@, Seq::<i32>::empty(), dto.items@) {
            ItemsOutcome::Accepted { products } => false,
            ItemsOutcome::RejectedQuantity => e matches AppError::Validation(m) && m@
                == "Quantity must be positive"@,
            ItemsOutcome::RejectedDuplicate => e is Storage,
            ItemsOutcome::RejectedMissing => e is NotFound,
            ItemsOutcome::RejectedStock => e matches AppError::Validation(m) && m@
                == "Insufficient stock"@,
        }
    }
}

/// Full relation between the store before and after an order-creation
/// request stamped with `order_date`, and the result handed back.
pub open spec fn order_create_post(
    pre: Store,
    dto: OrderCreate,
    order_date: i64,
    post: Store,
    r: Result<Order, AppError>,
) -> bool {
    match r {
        Result::Ok(header) => {
            &&& pre.next_order_id < i32::MAX
            &&& (apply_order_items(pre.products@, Seq::<i32>::empty(), dto.items@)
                matches ItemsOutcome::Accepted { products } && post.products@ == products)
            &&& header.order_id == pre.next_order_id
            &&& header.customer_id == dto.customer_id
            &&& header.order_date == order_date
            &&& header.total_amount == dto.total_amount
            &&& header.shipping_address == dto.shipping_address
            &&& match dto.status {
                Option::Some(s) => header.status == s,
                Option::None => header.status@ == "pending"@,
            }
            &&& post.orders@ == pre.orders@.push(header)
            &&& post.order_items@ == pre.order_items@ + order_item_rows(
                pre.next_order_id,
                dto.items@,
            )
            &&& post.next_order_id == pre.next_order_id + 1
            &&& post.shipments@ == pre.shipments@
            &&& post.shipment_items@ == pre.shipment_items@
            &&& post.categories@ == pre.categories@
            &&& post.customers@ == pre.customers@
            &&& post.suppliers@ == pre.suppliers@
            &&& post.next_product_id == pre.next_product_id
            &&& post.next_shipment_id == pre.next_shipment_id
            &&& post.next_category_id == pre.next_category_id
            &&& post.next_customer_id == pre.next_customer_id
            &&& post.next_supplier_id == pre.next_supplier_id
        },
        Result::Err(e) => {
            &&& post == pre
            &&& order_create_error(pre, dto, e)
        },
    }
}

/// Full relation between the store before and after an order-update
/// request, and the result handed back.
pub open spec fn order_update_post(
    pre: Store,
    id: i32,
    dto: OrderUpdate,
    post: Store,
    r: Result<Order, AppError>,
) -> bool {
    match r {
        Result::Ok(header) => {
            &&& has_order(pre.orders@, id)
            &&& header == patched_order(pre.orders@[order_index(pre.orders@, id)], dto)
            &&& post.orders@ == pre.orders@.update(order_index(pre.orders@, id), header)
            &&& match dto.items {
                Option::Some(items) => {
                    &&& check_order_items(pre.products@, Seq::<i32>::empty(), items@)
                        is Accepted
                    &&& post.order_items@ == order_items_without(pre.order_items@, id)
                        + order_item_rows(id, items@)
                },
                Option::None => post.order_items@ == pre.order_items@,
            }
            &&& post.products@ == pre.products@
            &&& post.shipments@ == pre.shipments@
            &&& post.shipment_items@ == pre.shipment_items@
            &&& post.categories@ == pre.categories@
            &&& post.customers@ == pre.customers@
            &&& post.suppliers@ == pre.suppliers@
            &&& post.next_product_id == pre.next_product_id
            &&& post.next_order_id == pre.next_order_id
            &&& post.next_shipment_id == pre.next_shipment_id
            &&& post.next_category_id == pre.next_category_id
            &&& post.next_customer_id == pre.next_customer_id
            &&& post.next_supplier_id == pre.next_supplier_id
        },
        Result::Err(e) => {
            &&& post == pre
            &&& if !has_order(pre.orders@, id) {
                e is NotFound
            } else {
                match dto.items {
                    Option::None => false,
                    Option::Some(items) => match check_order_items(
                        pre.products@,
                        Seq::<i32>::empty(),
                        items@,
                    ) {
                        ItemsCheck::Accepted => false,
                        ItemsCheck::RejectedQuantity => e matches AppError::Validation(m) && m@
                            == "Quantity must be positive"@,
                        ItemsCheck::RejectedDuplicate => e is Storage,
                        ItemsCheck::RejectedMissing => e is NotFound,
                    },
                }
            }
        },
    }
}

pub struct OrderService;

impl OrderService {
    /// All order headers, in table order.
    pub fn find_all(store: &Store) -> (r: Vec<Order>)
        ensures
            r@ == store.orders@,
    {
        crate::store::duplicate_orders(&store.orders)
    }

    /// The order header with this id, or `NotFound`.
    pub fn find_by_id(store: &Store, id: i32) -> (r: Result<Order, AppError>)
        requires
            store.wf(),
        ensures
            match r {
                Result::Ok(o) => has_order(store.orders@, id) && o == store.orders@[order_index(
                    store.orders@,
                    id,
                )],
                Result::Err(e) => e is NotFound && !has_order(store.orders@, id),
            },
    {
        match crate::store::find_order_index(&store.orders, id) {
            Option::Some(i) => {
                proof {
                    let os = store.orders@;
                    assert(has_order(os, id));
                    let j = order_index(os, id);
                    assert(0 <= j < os.len() && os[j].order_id == id);
                    assert(j == i as int);
                }
                Result::Ok(store.orders[i].duplicate())
            },
            Option::None => Result::Err(AppError::NotFound),
        }
    }

    /// Creates an order stamped with the current wall-clock time. The
    /// stored state and result are exactly those of `create_at` for some
    /// timestamp.
    pub fn create(store: &mut Store, dto: OrderCreate) -> (r: Result<Order, AppError>)
        requires
            old(store).wf(),
        ensures
            final(store).wf(),
            exists|d: i64| order_create_post(*old(store), dto, d, *final(store), r),
    {
        let stamp = crate::clock::now_timestamp();
        Self::create_at(store, dto, stamp)
    }

    /// Creates an order dated `order_date`: inserts the header (status
    /// defaulting to "pending") and one item row per line, and subtracts
    /// each line's quantity from its product's stock. The first failing
    /// line rejects the whole request and leaves the store untouched.
    #[verifier::loop_isolation(false)]
    pub fn create_at(store: &mut Store, dto: OrderCreate, order_date: i64) -> (r: Result<
        Order,
        AppError,
    >)
        requires
            old(store).wf(),
        ensures
            final(store).wf(),
            order_create_post(*old(store), dto, order_date, *final(store), r),
    {
        if store.next_order_id == i32::MAX {
            return Result::Err(AppError::Storage);
        }
        let ghost ps0 = store.products@;
        let ghost all_items = dto.items@;
        let mut scratch = crate::store::duplicate_products(&store.products);
        let mut seen: Vec<i32> = Vec::new();
        let mut idx: usize = 0;
        proof {
            assert(all_items.skip(0) =~= all_items);
        }
        while idx < dto.items.len()
            invariant
                idx <= all_items.len(),
                dto.items@ == all_items,
                crate::model::product_ids_unique(scratch@),
                crate::model::stocks_nonneg(scratch@),
                scratch@.len() == ps0.len(),
                forall|k: int|
                    0 <= k < ps0.len() ==> #[trigger] scratch@[k].product_id
                        == ps0[k].product_id,
                seen@.len() == idx,
                forall|j: int| 0 <= j < idx ==> #[trigger] seen@[j] == all_items[j].product_id,
                forall|a: int, b: int|
                    #![trigger all_items[a].product_id, all_items[b].product_id]
                    0 <= a < b < idx ==> all_items[a].product_id != all_items[b].product_id,
                forall|j: int|
                    0 <= j < idx ==> has_product(ps0, #[trigger] all_items[j].product_id)
                        && all_items[j].quantity > 0,
                apply_order_items(ps0, Seq::<i32>::empty(), all_items) == apply_order_items(
                    scratch@,
                    seen@,
                    all_items.skip(idx as int),
                ),
            decreases all_items.len() - idx,
        {
            let ghost scratch1 = scratch@;
            let ghost seen1 = seen@;
            proof {
                assert(all_items.skip(idx as int).len() > 0);
                assert(all_items.skip(idx as int)[0] == all_items[idx as int]);
            }
            let it = dto.items[idx];
            if it.quantity <= 0 {
                return Result::Err(AppError::Validation("Quantity must be positive".to_owned()));
            }
            if crate::store::id_list_contains(&seen, it.product_id) {
                return Result::Err(AppError::Storage);
            }
            match crate::stock::reserve(&mut scratch, it.product_id, it.quantity) {
                Result::Ok(_) => {},
                Result::Err(e) => {
                    return Result::Err(e);
                },
            }
            seen.push(it.product_id);
            idx = idx + 1;
            proof {
                assert(all_items.skip(idx - 1).drop_first() =~= all_items.skip(idx as int));
                assert(apply_order_items(scratch1, seen1, all_items.skip(idx - 1))
                    == apply_order_items(scratch@, seen@, all_items.skip(idx as int)));
                assert forall|k: int| 0 <= k < ps0.len() implies #[trigger] scratch@[k].product_id
                    == ps0[k].product_id by {
                    assert(scratch1[k].product_id == ps0[k].product_id);
                }
                assert forall|a: int| #![trigger all_items[a]] 0 <= a < idx - 1 implies all_items[
                    a
                ].product_id != all_items[idx - 1].product_id by {
                    assert(seen1[a] == all_items[a].product_id);
                }
                assert(has_product(scratch1, all_items[idx - 1].product_id));
                let w = choose|w: int|
                    0 <= w < scratch1.len() && scratch1[w].product_id == all_items[
                        idx - 1
                    ].product_id;
                assert(ps0[w].product_id == all_items[idx - 1].product_id);
            }
        }
        proof {
            assert(all_items.skip(all_items.len() as int).len() == 0);
            assert(apply_order_items(ps0, Seq::<i32>::empty(), all_items)
                == (ItemsOutcome::Accepted { products: scratch@ }));
        }
        let oid = store.next_order_id;
        let ghost pre = *store;
        let status = match dto.status {
            Option::Some(s) => s,
            Option::None => "pending".to_owned(),
        };
        let header = Order {
            order_id: oid,
            customer_id: dto.customer_id,
            order_date,
            status,
            total_amount: dto.total_amount,
            shipping_address: dto.shipping_address,
        };
        let result = header.duplicate();
        let mut rows: Vec<OrderItem> = Vec::new();
        let mut k: usize = 0;
        while k < dto.items.len()
            invariant
                k <= all_items.len(),
                dto.items@ == all_items,
                rows@ == order_item_rows(oid, all_items.take(k as int)),
            decreases all_items.len() - k,
        {
            let it = dto.items[k];
            rows.push(
                OrderItem {
                    order_id: oid,
                    product_id: it.product_id,
                    quantity: it.quantity,
                    unit_price: it.unit_price,
                },
            );
            proof {
                assert(order_item_rows(oid, all_items.take(k + 1)) =~= order_item_rows(
                    oid,
                    all_items.take(k as int),
                ).push(rows@.last()));
            }
            k = k + 1;
        }
        proof {
            assert(all_items.take(all_items.len() as int) =~= all_items);
        }
        store.next_order_id = oid + 1;
        store.products = scratch;
        store.orders.push(header);
        store.order_items.append(&mut rows);
        proof {
            let post = *store;
            assert(post.orders@ == pre.orders@.push(result));
            assert(post.order_items@ == pre.order_items@ + order_item_rows(oid, all_items));
            // Well-formedness of the committed store.
            assert forall|i: int, j: int| 0 <= i < j < post.orders@.len() implies post.orders@[i].order_id
                != post.orders@[j].order_id by {
                if j < pre.orders@.len() {
                    assert(pre.orders@[i].order_id != pre.orders@[j].order_id);
                } else {
                    assert(pre.orders@[i].order_id < pre.next_order_id);
                }
            }
            assert forall|i: int|
                0 <= i < post.order_items@.len() implies {
                &&& has_order(post.orders@, #[trigger] post.order_items@[i].order_id)
                &&& has_product(post.products@, post.order_items@[i].product_id)
                &&& post.order_items@[i].quantity > 0
            } by {
                if i < pre.order_items@.len() {
                    let it = pre.order_items@[i];
                    let w = choose|w: int|
                        0 <= w < pre.orders@.len() && pre.orders@[w].order_id == it.order_id;
                    assert(post.orders@[w].order_id == it.order_id);
                    let v = choose|v: int|
                        0 <= v < ps0.len() && ps0[v].product_id == it.product_id;
                    assert(post.products@[v].product_id == it.product_id);
                } else {
                    let j = i - pre.order_items@.len();
                    let it = post.order_items@[i];
                    assert(it == order_item_rows(oid, all_items)[j]);
                    assert(it.order_id == oid);
                    assert(post.orders@[post.orders@.len() - 1].order_id == oid);
                    assert(it.product_id == all_items[j].product_id);
                    let v = choose|v: int|
                        0 <= v < ps0.len() && ps0[v].product_id == it.product_id;
                    assert(post.products@[v].product_id == it.product_id);
                }
            }
            assert forall|i: int, j: int|
                #![trigger post.order_items@[i], post.order_items@[j]]
                0 <= i < j < post.order_items@.len() implies !(post.order_items@[i].order_id
                == post.order_items@[j].order_id && post.order_items@[i].product_id
                == post.order_items@[j].product_id) by {
                let n = pre.order_items@.len() as int;
                if j < n {
                    assert(pre.order_items@[i] == post.order_items@[i]);
                    assert(pre.order_items@[j] == post.order_items@[j]);
                } else if i < n {
                    // An existing row belongs to an existing order, whose id
                    // lies below the id just assigned.
                    let it = pre.order_items@[i];
                    let w = choose|w: int|
                        0 <= w < pre.orders@.len() && pre.orders@[w].order_id == it.order_id;
                    assert(pre.orders@[w].order_id < pre.next_order_id);
                    assert(post.order_items@[j].order_id == oid);
                } else {
                    assert(post.order_items@[i].product_id == all_items[i - n].product_id);
                    assert(post.order_items@[j].product_id == all_items[j - n].product_id);
                }
            }
            assert(pre == *old(store));
            assert forall|i: int|
                0 <= i < post.shipment_items@.len() implies {
                &&& crate::model::has_shipment(
                    post.shipments@,
                    #[trigger] post.shipment_items@[i].shipment_id,
                )
                &&& has_product(post.products@, post.shipment_items@[i].product_id)
                &&& post.shipment_items@[i].quantity > 0
            } by {
                assert(crate::model::has_shipment(
                    pre.shipments@,
                    pre.shipment_items@[i].shipment_id,
                ));
                assert(has_product(ps0, pre.shipment_items@[i].product_id));
                let v = choose|v: int|
                    0 <= v < ps0.len() && ps0[v].product_id == pre.shipment_items@[i].product_id;
                assert(scratch@[v].product_id == ps0[v].product_id);
                assert(post.products@[v].product_id == pre.shipment_items@[i].product_id);
            }
        }
        Result::Ok(result)
    }

    /// Applies an update request to an order: header fields present in the
    /// patch are overwritten, and a supplied item list wholesale-replaces
    /// the order's item rows after being checked (positive quantities,
    /// existing products, no repeated product). Stock is deliberately
    /// neither re-validated nor adjusted for removed or added lines.
    #[verifier::loop_isolation(false)]
    #[verifier::rlimit(60)]
    pub fn update(store: &mut Store, id: i32, dto: OrderUpdate) -> (r: Result<Order, AppError>)
        requires
            old(store).wf(),
        ensures
            final(store).wf(),
            order_update_post(*old(store), id, dto, *final(store), r),
    {
        let oi = match crate::store::find_order_index(&store.orders, id) {
            Option::Some(i) => i,
            Option::None => {
                return Result::Err(AppError::NotFound);
            },
        };
        proof {
            let os = store.orders@;
            assert(has_order(os, id));
            let j = order_index(os, id);
            assert(0 <= j < os.len() && os[j].order_id == id);
            assert(j == oi as int);
        }
        let OrderUpdate { status, total_amount, shipping_address, items } = dto;
        // Check the replacement lines and build their rows before touching
        // anything, so a rejected request leaves the store as it was.
        let mut do_replace: bool = false;
        let mut new_rows: Vec<OrderItem> = Vec::new();
        if let Option::Some(its) = items {
            let ghost all_items = its@;
            let mut seen: Vec<i32> = Vec::new();
            let mut idx: usize = 0;
            proof {
                assert(all_items.skip(0) =~= all_items);
            }
            while idx < its.len()
                invariant
                    idx <= all_items.len(),
                    its@ == all_items,
                    seen@.len() == idx,
                    forall|j: int|
                        0 <= j < idx ==> #[trigger] seen@[j] == all_items[j].product_id,
                    forall|a: int, b: int|
                        #![trigger all_items[a].product_id, all_items[b].product_id]
                        0 <= a < b < idx ==> all_items[a].product_id != all_items[b].product_id,
                    forall|j: int|
                        0 <= j < idx ==> has_product(
                            store.products@,
                            #[trigger] all_items[j].product_id,
                        ) && all_items[j].quantity > 0,
                    check_order_items(store.products@, Seq::<i32>::empty(), all_items)
                        == check_order_items(store.products@, seen@, all_items.skip(idx as int)),
                decreases all_items.len() - idx,
            {
                proof {
                    assert(all_items.skip(idx as int).len() > 0);
                    assert(all_items.skip(idx as int)[0] == all_items[idx as int]);
                }
                let it = its[idx];
                if it.quantity <= 0 {
                    return Result::Err(
                        AppError::Validation("Quantity must be positive".to_owned()),
                    );
                }
                if crate::store::id_list_contains(&seen, it.product_id) {
                    return Result::Err(AppError::Storage);
                }
                match crate::store::find_product_index(&store.products, it.product_id) {
                    Option::Some(_) => {},
                    Option::None => {
                        return Result::Err(AppError::NotFound);
                    },
                }
                let ghost seen1 = seen@;
                seen.push(it.product_id);
                idx = idx + 1;
                proof {
                    assert(all_items.skip(idx - 1).drop_first() =~= all_items.skip(idx as int));
                    assert forall|a: int| #![trigger all_items[a]] 0 <= a < idx - 1 implies
                        all_items[a].product_id != all_items[idx - 1].product_id by {
                        assert(seen1[a] == all_items[a].product_id);
                    }
                }
            }
            proof {
                assert(all_items.skip(all_items.len() as int).len() == 0);
                assert(check_order_items(store.products@, Seq::<i32>::empty(), all_items)
                    is Accepted);
            }
            let mut k2: usize = 0;
            while k2 < its.len()
                invariant
                    k2 <= all_items.len(),
                    its@ == all_items,
                    new_rows@ == order_item_rows(id, all_items.take(k2 as int)),
                decreases all_items.len() - k2,
            {
                let it = its[k2];
                new_rows.push(
                    OrderItem {
                        order_id: id,
                        product_id: it.product_id,
                        quantity: it.quantity,
                        unit_price: it.unit_price,
                    },
                );
                proof {
                    assert(order_item_rows(id, all_items.take(k2 + 1)) =~= order_item_rows(
                        id,
                        all_items.take(k2 as int),
                    ).push(new_rows@.last()));
                }
                k2 = k2 + 1;
            }
            proof {
                assert(all_items.take(all_items.len() as int) =~= all_items);
            }
            do_replace = true;
        }
        let ghost pre = *store;
        let ghost rows_snapshot = new_rows@;
        let mut row = store.orders[oi].duplicate();
        if let Option::Some(s) = status {
            row.status = s;
        }
        if let Option::Some(t) = total_amount {
            row.total_amount = t;
        }
        if let Option::Some(a) = shipping_address {
            row.shipping_address = a;
        }
        let result = row.duplicate();
        store.orders[oi] = row;
        if do_replace {
            let ghost items0 = pre.order_items@;
            let mut kept: Vec<OrderItem> = Vec::new();
            let mut k: usize = 0;
            while k < store.order_items.len()
                invariant
                    k <= items0.len(),
                    store.order_items@ == items0,
                    store.orders@ == pre.orders@.update(oi as int, result),
                    oi < pre.orders@.len(),
                    kept@ == order_items_without(items0.take(k as int), id),
                decreases items0.len() - k,
            {
                let it = store.order_items[k];
                proof {
                    reveal_with_fuel(Seq::filter, 2);
                    assert(items0.take(k + 1).drop_last() =~= items0.take(k as int));
                    assert(items0.take(k + 1).last() == it);
                    if it.order_id != id {
                        assert(order_items_without(items0.take(k + 1), id)
                            == order_items_without(items0.take(k as int), id).push(it));
                    } else {
                        assert(order_items_without(items0.take(k + 1), id)
                            == order_items_without(items0.take(k as int), id));
                    }
                }
                if it.order_id != id {
                    kept.push(it);
                }
                k = k + 1;
            }
            proof {
                assert(items0.take(items0.len() as int) =~= items0);
            }
            kept.append(&mut new_rows);
            store.order_items = kept;
        }
        proof {
            let post = *store;
            assert(post.orders@[oi as int] == result);
            assert forall|i: int, j: int| 0 <= i < j < post.orders@.len() implies post.orders@[i].order_id
                != post.orders@[j].order_id by {
                assert(pre.orders@[i].order_id != pre.orders@[j].order_id);
                assert(post.orders@[i].order_id == pre.orders@[i].order_id);
                assert(post.orders@[j].order_id == pre.orders@[j].order_id);
            }
            assert forall|i: int|
                0 <= i < post.orders@.len() implies #[trigger] post.orders@[i].order_id
                < post.next_order_id by {
                assert(pre.orders@[i].order_id < pre.next_order_id);
            }
            Self::lemma_update_items_wf(pre, id, post, oi as int, result, do_replace, rows_snapshot);
        }
        Result::Ok(result)
    }

    /// The replaced or retained item rows still satisfy the store
    /// invariant after an order update.
    proof fn lemma_update_items_wf(
        pre: Store,
        id: i32,
        post: Store,
        oi: int,
        patched: Order,
        replaced: bool,
        rows: Seq<OrderItem>,
    )
        requires
            pre.wf(),
            0 <= oi < pre.orders@.len(),
            pre.orders@[oi].order_id == id,
            patched.order_id == id,
            post.orders@ == pre.orders@.update(oi, patched),
            post.products@ == pre.products@,
            post.shipments@ == pre.shipments@,
            post.shipment_items@ == pre.shipment_items@,
            !replaced ==> post.order_items@ == pre.order_items@,
            replaced ==> post.order_items@ == order_items_without(pre.order_items@, id) + rows,
            replaced ==> forall|j: int|
                0 <= j < rows.len() ==> (#[trigger] rows[j]).order_id == id && has_product(
                    pre.products@,
                    rows[j].product_id,
                ) && rows[j].quantity > 0,
            replaced ==> forall|a: int, b: int|
                #![trigger rows[a].product_id, rows[b].product_id]
                0 <= a < b < rows.len() ==> rows[a].product_id != rows[b].product_id,
        ensures
            post.order_items_wf(),
            post.shipment_items_wf(),
    {
        assert forall|w: int| 0 <= w < pre.orders@.len() implies post.orders@[w].order_id
            == pre.orders@[w].order_id by {}
        assert forall|i: int|
            0 <= i < post.shipment_items@.len() implies {
            &&& crate::model::has_shipment(
                post.shipments@,
                #[trigger] post.shipment_items@[i].shipment_id,
            )
            &&& has_product(post.products@, post.shipment_items@[i].product_id)
            &&& post.shipment_items@[i].quantity > 0
        } by {
            assert(pre.shipment_items@[i] == post.shipment_items@[i]);
        }
        if !replaced {
            assert forall|i: int|
                0 <= i < post.order_items@.len() implies {
                &&& has_order(post.orders@, #[trigger] post.order_items@[i].order_id)
                &&& has_product(post.products@, post.order_items@[i].product_id)
                &&& post.order_items@[i].quantity > 0
            } by {
                let it = pre.order_items@[i];
                let w = choose|w: int|
                    0 <= w < pre.orders@.len() && pre.orders@[w].order_id == it.order_id;
                assert(post.orders@[w].order_id == it.order_id);
            }
            assert forall|i: int, j: int|
                #![trigger post.order_items@[i], post.order_items@[j]]
                0 <= i < j < post.order_items@.len() implies !(post.order_items@[i].order_id
                == post.order_items@[j].order_id && post.order_items@[i].product_id
                == post.order_items@[j].product_id) by {
                assert(pre.order_items@[i] == post.order_items@[i]);
                assert(pre.order_items@[j] == post.order_items@[j]);
            }
        } else {
            let woid = order_items_without(pre.order_items@, id);
            let keeppred = |it: OrderItem| it.order_id != id;
            let n = woid.len() as int;
            assert forall|i: int|
                0 <= i < post.order_items@.len() implies {
                &&& has_order(post.orders@, #[trigger] post.order_items@[i].order_id)
                &&& has_product(post.products@, post.order_items@[i].product_id)
                &&& post.order_items@[i].quantity > 0
            } by {
                if i < n {
                    let it = woid[i];
                    crate::model::lemma_filter_member(pre.order_items@, keeppred, i);
                    let u = choose|u: int|
                        0 <= u < pre.order_items@.len() && pre.order_items@[u] == it;
                    let w = choose|w: int|
                        0 <= w < pre.orders@.len() && pre.orders@[w].order_id == it.order_id;
                    assert(post.orders@[w].order_id == it.order_id);
                } else {
                    let it = rows[i - n];
                    assert(it.order_id == id);
                    assert(post.orders@[oi].order_id == id);
                }
            }
            assert forall|i: int, j: int|
                #![trigger post.order_items@[i], post.order_items@[j]]
                0 <= i < j < post.order_items@.len() implies !(post.order_items@[i].order_id
                == post.order_items@[j].order_id && post.order_items@[i].product_id
                == post.order_items@[j].product_id) by {
                if j < n {
                    crate::model::lemma_filter_pairwise(
                        pre.order_items@,
                        keeppred,
                        |x: OrderItem, y: OrderItem|
                            !(x.order_id == y.order_id && x.product_id == y.product_id),
                        i,
                        j,
                    );
                } else if i < n {
                    // A retained row never carries the updated order's id.
                    pre.order_items@.lemma_filter_pred(keeppred, i);
                    assert(post.order_items@[j].order_id == id);
                } else {
                    assert(rows[i - n].product_id != rows[j - n].product_id);
                }
            }
        }
    }

    /// Deletes an order header; its item rows go with it. Stock is
    /// deliberately not restored.
    #[verifier::loop_isolation(false)]
    pub fn delete(store: &mut Store, id: i32) -> (r: Result<(), AppError>)
        requires
            old(store).wf(),
        ensures
            final(store).wf(),
            match r {
                Result::Ok(_) => {
                    &&& has_order(old(store).orders@, id)
                    &&& final(store).orders@ == old(store).orders@.remove(
                        order_index(old(store).orders@, id),
                    )
                    &&& final(store).order_items@ == order_items_without(
                        old(store).order_items@,
                        id,
                    )
                    &&& final(store).products@ == old(store).products@
                    &&& final(store).shipments@ == old(store).shipments@
                    &&& final(store).shipment_items@ == old(store).shipment_items@
                    &&& final(store).categories@ == old(store).categories@
                    &&& final(store).customers@ == old(store).customers@
                    &&& final(store).suppliers@ == old(store).suppliers@
                    &&& final(store).next_product_id == old(store).next_product_id
                    &&& final(store).next_order_id == old(store).next_order_id
                    &&& final(store).next_shipment_id == old(store).next_shipment_id
                    &&& final(store).next_category_id == old(store).next_category_id
                    &&& final(store).next_customer_id == old(store).next_customer_id
                    &&& final(store).next_supplier_id == old(store).next_supplier_id
                },
                Result::Err(e) => {
                    &&& e is NotFound
                    &&& !has_order(old(store).orders@, id)
                    &&& *final(store) == *old(store)
                },
            },
    {
        let oi = match crate::store::find_order_index(&store.orders, id) {
            Option::Some(i) => i,
            Option::None => {
                return Result::Err(AppError::NotFound);
            },
        };
        proof {
            let os = store.orders@;
            assert(has_order(os, id));
            let j = order_index(os, id);
            assert(0 <= j < os.len() && os[j].order_id == id);
            assert(j == oi as int);
        }
        let ghost pre = *store;
        store.orders.remove(oi);
        let ghost items0 = store.order_items@;
        let mut kept: Vec<OrderItem> = Vec::new();
        let mut k: usize = 0;
        while k < store.order_items.len()
            invariant
                k <= items0.len(),
                store.order_items@ == items0,
                store.orders@ == pre.orders@.remove(oi as int),
                kept@ == order_items_without(items0.take(k as int), id),
            decreases items0.len() - k,
        {
            let it = store.order_items[k];
            proof {
                reveal_with_fuel(Seq::filter, 2);
                assert(items0.take(k + 1).drop_last() =~= items0.take(k as int));
                assert(items0.take(k + 1).last() == it);
                if it.order_id != id {
                    assert(order_items_without(items0.take(k + 1), id) == order_items_without(
                        items0.take(k as int),
                        id,
                    ).push(it));
                } else {
                    assert(order_items_without(items0.take(k + 1), id) == order_items_without(
                        items0.take(k as int),
                        id,
                    ));
                }
            }
            if it.order_id != id {
                kept.push(it);
            }
            k = k + 1;
        }
        proof {
            assert(items0.take(items0.len() as int) =~= items0);
        }
        store.order_items = kept;
        proof {
            let post = *store;
            let keeppred = |it: OrderItem| it.order_id != id;
            assert forall|i: int, j: int| 0 <= i < j < post.orders@.len() implies post.orders@[i].order_id
                != post.orders@[j].order_id by {
                if i < oi as int {
                    if j < oi as int {
                        assert(pre.orders@[i].order_id != pre.orders@[j].order_id);
                    } else {
                        assert(pre.orders@[i].order_id != pre.orders@[j + 1].order_id);
                    }
                } else {
                    assert(pre.orders@[i + 1].order_id != pre.orders@[j + 1].order_id);
                }
            }
            assert forall|i: int|
                0 <= i < post.orders@.len() implies #[trigger] post.orders@[i].order_id
                < post.next_order_id by {
                if i < oi as int {
                    assert(pre.orders@[i].order_id < pre.next_order_id);
                } else {
                    assert(pre.orders@[i + 1].order_id < pre.next_order_id);
                }
            }
            assert forall|i: int|
                0 <= i < post.order_items@.len() implies {
                &&& has_order(post.orders@, #[trigger] post.order_items@[i].order_id)
                &&& has_product(post.products@, post.order_items@[i].product_id)
                &&& post.order_items@[i].quantity > 0
            } by {
                let it = post.order_items@[i];
                crate::model::lemma_filter_member(pre.order_items@, keeppred, i);
                let u = choose|u: int|
                    0 <= u < pre.order_items@.len() && pre.order_items@[u] == it;
                pre.order_items@.lemma_filter_pred(keeppred, i);
                assert(keeppred(it));
                let w = choose|w: int|
                    0 <= w < pre.orders@.len() && pre.orders@[w].order_id == it.order_id;
                assert(pre.orders@[w].order_id != id);
                assert(w != oi as int);
                if w < oi as int {
                    assert(post.orders@[w].order_id == it.order_id);
                } else {
                    assert(post.orders@[w - 1].order_id == it.order_id);
                }
            }
            assert forall|i: int, j: int|
                #![trigger post.order_items@[i], post.order_items@[j]]
                0 <= i < j < post.order_items@.len() implies !(post.order_items@[i].order_id
                == post.order_items@[j].order_id && post.order_items@[i].product_id
                == post.order_items@[j].product_id) by {
                crate::model::lemma_filter_pairwise(
                    pre.order_items@,
                    keeppred,
                    |x: OrderItem, y: OrderItem|
                        !(x.order_id == y.order_id && x.product_id == y.product_id),
                    i,
                    j,
                );
            }
        }
        Result::Ok(())
    }

    /// The order header with this id together with its item rows, in
    /// table order.
    #[verifier::loop_isolation(false)]
    pub fn find_with_details(store: &Store, id: i32) -> (r: Result<
        (Order, Vec<OrderItem>),
        AppError,
    >)
        requires
            store.wf(),
        ensures
            match r {
                Result::Ok(p) => {
                    &&& has_order(store.orders@, id)
                    &&& p.0 == store.orders@[order_index(store.orders@, id)]
                    &&& p.1@ == order_items_of(store.order_items@, id)
                },
                Result::Err(e) => e is NotFound && !has_order(store.orders@, id),
            },
    {
        let header = match Self::find_by_id(store, id) {
            Result::Ok(o) => o,
            Result::Err(e) => {
                return Result::Err(e);
            },
        };
        let ghost items0 = store.order_items@;
        let mut items: Vec<OrderItem> = Vec::new();
        let mut k: usize = 0;
        while k < store.order_items.len()
            invariant
                k <= items0.len(),
                store.order_items@ == items0,
                items@ == order_items_of(items0.take(k as int), id),
            decreases items0.len() - k,
        {
            let it = store.order_items[k];
            proof {
                reveal_with_fuel(Seq::filter, 2);
                assert(items0.take(k + 1).drop_last() =~= items0.take(k as int));
                assert(items0.take(k + 1).last() == it);
                if it.order_id == id {
                    assert(order_items_of(items0.take(k + 1), id) == order_items_of(
                        items0.take(k as int),
                        id,
                    ).push(it));
                } else {
                    assert(order_items_of(items0.take(k + 1), id) == order_items_of(
                        items0.take(k as int),
                        id,
                    ));
                }
            }
            if it.order_id == id {
                items.push(it);
            }
            k = k + 1;
        }
        proof {
            assert(items0.take(items0.len() as int) =~= items0);
        }
        Result::Ok((header, items))
    }
}

} // verus!
