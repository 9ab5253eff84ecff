//! Shipment Transaction Processor: receives stock.
//!
//! Creating a shipment inserts the header and its item rows and adds each
//! line's quantity to the referenced product's stock, all or nothing: the
//! first failing line discards the whole operation and the store is left
//! exactly as it was. There is no lower-bound check in this direction;
//! the only stock failure is a counter that would leave the column's
//! bounds. Stock is adjusted on a scratch copy of the products table and
//! written back only on commit.
//!
//! Updating a shipment patches the header and, when a replacement item
//! list is supplied, wholesale-replaces the shipment's item rows in the
//! same operation. A deliberate design decision, stated in the contracts:
//! neither update nor delete re-validates or reverses the stock effects of
//! the rows they replace or remove; stock moves only when a document is
//! created.

use vstd::prelude::*;

use crate::dtos::ShipmentCreate;
use crate::dtos::ShipmentItemCreate;
use crate::dtos::ShipmentUpdate;
use crate::error::AppError;
use crate::model::Product;
use crate::model::Shipment;
use crate::model::ShipmentItem;
use crate::model::has_product;
use crate::model::has_shipment;
use crate::model::shipment_index;
use crate::model::shipment_items_of;
use crate::model::shipment_items_without;
use crate::model::stock_adjusted;
use crate::model::stock_of;
use crate::store::Store;

verus! {

/// The outcome of running a list of shipment lines against a products
/// table, line by line in the order supplied.
pub enum ReceiptOutcome {
    /// Every line passed; `products` is the table with each line's
    /// quantity added to its product's stock.
    Accepted { products: Seq<Product> },
    /// A line's quantity was not positive.
    RejectedQuantity,
    /// A line repeated a product already used by an earlier line, which
    /// would collide with the items table's composite key.
    RejectedDuplicate,
    /// A line referenced a product id not present in the table.
    RejectedMissing,
    /// A line would push its product's stock counter beyond the column's
    /// bounds.
    RejectedOverflow,
}

/// Runs shipment lines left to right: the first failing check decides the
/// outcome, and each accepted line's quantity is added to its product's
/// stock before the next line is examined. `seen` holds the product ids
/// already claimed by earlier lines.
pub open spec fn apply_shipment_items(
    ps: Seq<Product>,
    seen: Seq<i32>,
    items: Seq<ShipmentItemCreate>,
) -> ReceiptOutcome
    decreases items.len(),
{
    if items.len() == 0 {
        ReceiptOutcome::Accepted { products: ps }
    } else {
        let it = items[0];
        if it.quantity <= 0 {
            ReceiptOutcome::RejectedQuantity
        } else if seen.contains(it.product_id) {
            ReceiptOutcome::RejectedDuplicate
        } else if !has_product(ps, it.product_id) {
            ReceiptOutcome::RejectedMissing
        } else if stock_of(ps, it.product_id) + it.quantity > i32::MAX {
            ReceiptOutcome::RejectedOverflow
        } else {
            apply_shipment_items(
                stock_adjusted(ps, it.product_id, it.quantity as int),
                seen.push(it.product_id),
                items.drop_first(),
            )
        }
    }
}

/// The outcome of checking a replacement item list without touching
/// stock: quantities must be positive, products must exist, and no two
/// lines may share a product.
pub enum ReceiptCheck {
    Accepted,
    RejectedQuantity,
    RejectedDuplicate,
    RejectedMissing,
}

/// Checks replacement shipment lines left to right; the first failing
/// check decides the outcome. Stock is neither examined nor changed.
pub open spec fn check_shipment_items(
    ps: Seq<Product>,
    seen: Seq<i32>,
    items: Seq<ShipmentItemCreate>,
) -> ReceiptCheck
    decreases items.len(),
{
    if items.len() == 0 {
        ReceiptCheck::Accepted
    } else {
        let it = items[0];
        if it.quantity <= 0 {
            ReceiptCheck::RejectedQuantity
        } else if seen.contains(it.product_id) {
            ReceiptCheck::RejectedDuplicate
        } else if !has_product(ps, it.product_id) {
            ReceiptCheck::RejectedMissing
        } else {
            check_shipment_items(ps, seen.push(it.product_id), items.drop_first())
        }
    }
}

/// The item rows an accepted request stores for one shipment.
pub open spec fn shipment_item_rows(sid: i32, items: Seq<ShipmentItemCreate>) -> Seq<
    ShipmentItem,
> {
    items.map_values(
        |it: ShipmentItemCreate|
            ShipmentItem {
                shipment_id: sid,
                product_id: it.product_id,
                quantity: it.quantity,
                unit_cost: it.unit_cost,
            },
    )
}

/// A shipment header with an update request's present fields applied.
pub open spec fn patched_shipment(s: Shipment, dto: ShipmentUpdate) -> Shipment {
    Shipment {
        shipment_id: s.shipment_id,
        supplier_id: s.supplier_id,
        shipment_date: s.shipment_date,
        expected_delivery_date: match dto.expected_delivery_date {
            Option::Some(d) => d,
            Option::None => s.expected_delivery_date,
        },
        status: match dto.status {
            Option::Some(st) => st,
            Option::None => s.status,
        },
        total_cost: match dto.total_cost {
            Option::Some(c) => c,
            Option::None => s.total_cost,
        },
    }
}

/// The error a shipment-creation request is owed for each rejected
/// outcome.
pub open spec fn shipment_create_error(pre: Store, dto: ShipmentCreate, e: AppError) -> bool {
    if dto.expected_delivery_date < dto.shipment_date {
        e matches AppError::Validation(m) && m@
            == "Expected delivery date must not precede shipment date"@
    } else if pre.next_shipment_id == i32::MAX {
        e is Storage
    } else {
        match apply_shipment_items(pre.products@, Seq::<i32>::empty(), dto.items@) {
            ReceiptOutcome::Accepted { products } => false,
            ReceiptOutcome::RejectedQuantity => e matches AppError::Validation(m) && m@
                == "Quantity must be positive"@,
            ReceiptOutcome::RejectedDuplicate => e is Storage,
            ReceiptOutcome::RejectedMissing => e is NotFound,
            ReceiptOutcome::RejectedOverflow => e is Storage,
        }
    }
}

/// Full relation between the store before and after a shipment-creation
/// request, and the result handed back.
pub open spec fn shipment_create_post(
    pre: Store,
    dto: ShipmentCreate,
    post: Store,
    r: Result<Shipment, AppError>,
) -> bool {
    match r {
        Result::Ok(header) => {
            &&& dto.expected_delivery_date >= dto.shipment_date
            &&& pre.next_shipment_id < i32::MAX
            &&& (apply_shipment_items(pre.products@, Seq::<i32>::empty(), dto.items@)
                matches ReceiptOutcome::Accepted { products } && post.products@ == products)
            &&& header.shipment_id == pre.next_shipment_id
            &&& header.supplier_id == dto.supplier_id
            &&& header.shipment_date == dto.shipment_date
            &&& header.expected_delivery_date == dto.expected_delivery_date
            &&& header.total_cost == dto.total_cost
            &&& match dto.status {
                Option::Some(s) => header.status == s,
                Option::None => header.status@ == "in_transit"@,
            }
            &&& post.shipments@ == pre.shipments@.push(header)
            &&& post.shipment_items@ == pre.shipment_items@ + shipment_item_rows(
                pre.next_shipment_id,
                dto.items@,
            )
            &&& post.next_shipment_id == pre.next_shipment_id + 1
            &&& post.orders@ == pre.orders@
            &&& post.order_items@ == pre.order_items@
            &&& post.categories@ == pre.categories@
            &&& post.customers@ == pre.customers@
            &&& post.suppliers@ == pre.suppliers@
            &&& post.next_product_id == pre.next_product_id
            &&& post.next_order_id == pre.next_order_id
            &&& post.next_category_id == pre.next_category_id
            &&& post.next_customer_id == pre.next_customer_id
            &&& post.next_supplier_id == pre.next_supplier_id
        },
        Result::Err(e) => {
            &&& post == pre
            &&& shipment_create_error(pre, dto, e)
        },
    }
}

/// Full relation between the store before and after a shipment-update
/// request, and the result handed back.
pub open spec fn shipment_update_post(
    pre: Store,
    id: i32,
    dto: ShipmentUpdate,
    post: Store,
    r: Result<Shipment, AppError>,
) -> bool {
    match r {
        Result::Ok(header) => {
            &&& has_shipment(pre.shipments@, id)
            &&& header == patched_shipment(
                pre.shipments@[shipment_index(pre.shipments@, id)],
                dto,
            )
            &&& header.expected_delivery_date >= header.shipment_date
            &&& post.shipments@ == pre.shipments@.update(
                shipment_index(pre.shipments@, id),
                header,
            )
            &&& match dto.items {
                Option::Some(items) => {
                    &&& check_shipment_items(pre.products@, Seq::<i32>::empty(), items@)
                        is Accepted
                    &&& post.shipment_items@ == shipment_items_without(pre.shipment_items@, id)
                        + shipment_item_rows(id, items@)
                },
                Option::None => post.shipment_items@ == pre.shipment_items@,
            }
            &&& post.products@ == pre.products@
            &&& post.orders@ == pre.orders@
            &&& post.order_items@ == pre.order_items@
            &&& post.categories@ == pre.categories@
            &&& post.customers@ == pre.customers@
            &&& post.suppliers@ == pre.suppliers@
            &&& post.next_product_id == pre.next_product_id
            &&& post.next_order_id == pre.next_order_id
            &&& post.next_shipment_id == pre.next_shipment_id
            &&& post.next_category_id == pre.next_category_id
            &&& post.next_customer_id == pre.next_customer_id
            &&& post.next_supplier_id == pre.next_supplier_id
        },
        Result::Err(e) => {
            &&& post == pre
            &&& if !has_shipment(pre.shipments@, id) {
                e is NotFound
            } else if patched_shipment(
                pre.shipments@[shipment_index(pre.shipments@, id)],
                dto,
            ).expected_delivery_date < pre.shipments@[shipment_index(
                pre.shipments@,
                id,
            )].shipment_date {
                e matches AppError::Validation(m) && m@
                    == "Expected delivery date must not precede shipment date"@
            } else {
                match dto.items {
                    Option::None => false,
                    Option::Some(items) => match check_shipment_items(
                        pre.products@,
                        Seq::<i32>::empty(),
                        items@,
                    ) {
                        ReceiptCheck::Accepted => false,
                        ReceiptCheck::RejectedQuantity => e matches AppError::Validation(m) && m@
                            == "Quantity must be positive"@,
                        ReceiptCheck::RejectedDuplicate => e is Storage,
                        ReceiptCheck::RejectedMissing => e is NotFound,
                    },
                }
            }
        },
    }
}

pub struct ShipmentService;

impl ShipmentService {
    /// All shipment headers, in table order.
    pub fn find_all(store: &Store) -> (r: Vec<Shipment>)
        ensures
            r@ == store.shipments@,
    {
        crate::store::duplicate_shipments(&store.shipments)
    }

    /// The shipment header with this id, or `NotFound`.
    pub fn find_by_id(store: &Store, id: i32) -> (r: Result<Shipment, AppError>)
        requires
            store.wf(),
        ensures
            match r {
                Result::Ok(s) => has_shipment(store.shipments@, id) && s
                    == store.shipments@[shipment_index(store.shipments@, id)],
                Result::Err(e) => e is NotFound && !has_shipment(store.shipments@, id),
            },
    {
        match crate::store::find_shipment_index(&store.shipments, id) {
            Option::Some(i) => {
                proof {
                    let ss = store.shipments@;
                    assert(has_shipment(ss, id));
                    let j = shipment_index(ss, id);
                    assert(0 <= j < ss.len() && ss[j].shipment_id == id);
                    assert(j == i as int);
                }
                Result::Ok(store.shipments[i].duplicate())
            },
            Option::None => Result::Err(AppError::NotFound),
        }
    }

    /// Creates a shipment: inserts the header (status defaulting to
    /// "in_transit") and one item row per line, and adds each line's
    /// quantity to its product's stock. The first failing check rejects
    /// the whole request and leaves the store untouched.
    #[verifier::loop_isolation(false)]
    pub fn create(store: &mut Store, dto: ShipmentCreate) -> (r: Result<Shipment, AppError>)
        requires
            old(store).wf(),
        ensures
            final(store).wf(),
            shipment_create_post(*old(store), dto, *final(store), r),
    {
        if dto.expected_delivery_date < dto.shipment_date {
            return Result::Err(
                AppError::Validation(
                    "Expected delivery date must not precede shipment date".to_owned(),
                ),
            );
        }
        if store.next_shipment_id == i32::MAX {
            return Result::Err(AppError::Storage);
        }
        let ghost ps0 = store.products@;
        let ghost all_items = dto.items@;
        let mut scratch = crate::store::duplicate_products(&store.products);
        let mut seen: Vec<i32> = Vec::new();
        let mut idx: usize = 0;
        proof {
            assert(all_items.skip(0) =~= all_items);
        }
        while idx < dto.items.len()
            invariant
                idx <= all_items.len(),
                dto.items@ == all_items,
                crate::model::product_ids_unique(scratch@),
                crate::model::stocks_nonneg(scratch@),
                scratch@.len() == ps0.len(),
                forall|k: int|
                    0 <= k < ps0.len() ==> #[trigger] scratch@[k].product_id
                        == ps0[k].product_id,
                seen@.len() == idx,
                forall|j: int| 0 <= j < idx ==> #[trigger] seen@[j] == all_items[j].product_id,
                forall|a: int, b: int|
                    #![trigger all_items[a].product_id, all_items[b].product_id]
                    0 <= a < b < idx ==> all_items[a].product_id != all_items[b].product_id,
                forall|j: int|
                    0 <= j < idx ==> has_product(ps0, #[trigger] all_items[j].product_id)
                        && all_items[j].quantity > 0,
                apply_shipment_items(ps0, Seq::<i32>::empty(), all_items)
                    == apply_shipment_items(scratch@, seen@, all_items.skip(idx as int)),
            decreases all_items.len() - idx,
        {
            let ghost scratch1 = scratch@;
            let ghost seen1 = seen@;
            proof {
                assert(all_items.skip(idx as int).len() > 0);
                assert(all_items.skip(idx as int)[0] == all_items[idx as int]);
            }
            let it = dto.items[idx];
            if it.quantity <= 0 {
                return Result::Err(AppError::Validation("Quantity must be positive".to_owned()));
            }
            if crate::store::id_list_contains(&seen, it.product_id) {
                return Result::Err(AppError::Storage);
            }
            match crate::stock::receive(&mut scratch, it.product_id, it.quantity) {
                Result::Ok(_) => {},
                Result::Err(e) => {
                    return Result::Err(e);
                },
            }
            seen.push(it.product_id);
            idx = idx + 1;
            proof {
                assert(all_items.skip(idx - 1).drop_first() =~= all_items.skip(idx as int));
                assert(apply_shipment_items(scratch1, seen1, all_items.skip(idx - 1))
                    == apply_shipment_items(scratch@, seen@, all_items.skip(idx as int)));
                assert forall|k: int| 0 <= k < ps0.len() implies #[trigger] scratch@[k].product_id
                    == ps0[k].product_id by {
                    assert(scratch1[k].product_id == ps0[k].product_id);
                }
                assert forall|a: int| #![trigger all_items[a]] 0 <= a < idx - 1 implies all_items[
                    a
                ].product_id != all_items[idx - 1].product_id by {
                    assert(seen1[a] == all_items[a].product_id);
                }
                assert(has_product(scratch1, all_items[idx - 1].product_id));
                let w = choose|w: int|
                    0 <= w < scratch1.len() && scratch1[w].product_id == all_items[
                        idx - 1
                    ].product_id;
                assert(ps0[w].product_id == all_items[idx - 1].product_id);
            }
        }
        proof {
            assert(all_items.skip(all_items.len() as int).len() == 0);
            assert(apply_shipment_items(ps0, Seq::<i32>::empty(), all_items)
                == (ReceiptOutcome::Accepted { products: scratch@ }));
        }
        let sid = store.next_shipment_id;
        let ghost pre = *store;
        let status = match dto.status {
            Option::Some(s) => s,
            Option::None => "in_transit".to_owned(),
        };
        let header = Shipment {
            shipment_id: sid,
            supplier_id: dto.supplier_id,
            shipment_date: dto.shipment_date,
            expected_delivery_date: dto.expected_delivery_date,
            status,
            total_cost: dto.total_cost,
        };
        let result = header.duplicate();
        let mut rows: Vec<ShipmentItem> = Vec::new();
        let mut k: usize = 0;
        while k < dto.items.len()
            invariant
                k <= all_items.len(),
                dto.items@ == all_items,
                rows@ == shipment_item_rows(sid, all_items.take(k as int)),
            decreases all_items.len() - k,
        {
            let it = dto.items[k];
            rows.push(
                ShipmentItem {
                    shipment_id: sid,
                    product_id: it.product_id,
                    quantity: it.quantity,
                    unit_cost: it.unit_cost,
                },
            );
            proof {
                assert(shipment_item_rows(sid, all_items.take(k + 1)) =~= shipment_item_rows(
                    sid,
                    all_items.take(k as int),
                ).push(rows@.last()));
            }
            k = k + 1;
        }
        proof {
            assert(all_items.take(all_items.len() as int) =~= all_items);
        }
        store.next_shipment_id = sid + 1;
        store.products = scratch;
        store.shipments.push(header);
        store.shipment_items.append(&mut rows);
        proof {
            let post = *store;
            assert(post.shipments@ == pre.shipments@.push(result));
            assert(post.shipment_items@ == pre.shipment_items@ + shipment_item_rows(
                sid,
                all_items,
            ));
            // Well-formedness of the committed store.
            assert forall|i: int, j: int| 0 <= i < j < post.shipments@.len() implies post.shipments@[i].shipment_id
                != post.shipments@[j].shipment_id by {
                if j < pre.shipments@.len() {
                    assert(pre.shipments@[i].shipment_id != pre.shipments@[j].shipment_id);
                } else {
                    assert(pre.shipments@[i].shipment_id < pre.next_shipment_id);
                }
            }
            assert forall|i: int|
                0 <= i < post.shipment_items@.len() implies {
                &&& has_shipment(post.shipments@, #[trigger] post.shipment_items@[i].shipment_id)
                &&& has_product(post.products@, post.shipment_items@[i].product_id)
                &&& post.shipment_items@[i].quantity > 0
            } by {
                if i < pre.shipment_items@.len() {
                    let it = pre.shipment_items@[i];
                    let w = choose|w: int|
                        0 <= w < pre.shipments@.len() && pre.shipments@[w].shipment_id
                            == it.shipment_id;
                    assert(post.shipments@[w].shipment_id == it.shipment_id);
                    let v = choose|v: int|
                        0 <= v < ps0.len() && ps0[v].product_id == it.product_id;
                    assert(post.products@[v].product_id == it.product_id);
                } else {
                    let j = i - pre.shipment_items@.len();
                    let it = post.shipment_items@[i];
                    assert(it == shipment_item_rows(sid, all_items)[j]);
                    assert(it.shipment_id == sid);
                    assert(post.shipments@[post.shipments@.len() - 1].shipment_id == sid);
                    assert(it.product_id == all_items[j].product_id);
                    let v = choose|v: int|
                        0 <= v < ps0.len() && ps0[v].product_id == it.product_id;
                    assert(post.products@[v].product_id == it.product_id);
                }
            }
            assert forall|i: int, j: int|
                #![trigger post.shipment_items@[i], post.shipment_items@[j]]
                0 <= i < j < post.shipment_items@.len() implies !(
                post.shipment_items@[i].shipment_id == post.shipment_items@[j].shipment_id
                && post.shipment_items@[i].product_id
                == post.shipment_items@[j].product_id) by {
                let n = pre.shipment_items@.len() as int;
                if j < n {
                    assert(pre.shipment_items@[i] == post.shipment_items@[i]);
                    assert(pre.shipment_items@[j] == post.shipment_items@[j]);
                } else if i < n {
                    // An existing row belongs to an existing shipment, whose
                    // id lies below the id just assigned.
                    let it = pre.shipment_items@[i];
                    let w = choose|w: int|
                        0 <= w < pre.shipments@.len() && pre.shipments@[w].shipment_id
                            == it.shipment_id;
                    assert(pre.shipments@[w].shipment_id < pre.next_shipment_id);
                    assert(post.shipment_items@[j].shipment_id == sid);
                } else {
                    assert(post.shipment_items@[i].product_id == all_items[i - n].product_id);
                    assert(post.shipment_items@[j].product_id == all_items[j - n].product_id);
                }
            }
            assert(pre == *old(store));
            assert forall|i: int|
                0 <= i < post.order_items@.len() implies {
                &&& crate::model::has_order(
                    post.orders@,
                    #[trigger] post.order_items@[i].order_id,
                )
                &&& has_product(post.products@, post.order_items@[i].product_id)
                &&& post.order_items@[i].quantity > 0
            } by {
                assert(crate::model::has_order(pre.orders@, pre.order_items@[i].order_id));
                assert(has_product(ps0, pre.order_items@[i].product_id));
                let v = choose|v: int|
                    0 <= v < ps0.len() && ps0[v].product_id == pre.order_items@[i].product_id;
                assert(scratch@[v].product_id == ps0[v].product_id);
                assert(post.products@[v].product_id == pre.order_items@[i].product_id);
            }
        }
        Result::Ok(result)
    }

    /// Applies an update request to a shipment: header fields present in
    /// the patch are overwritten (the expected delivery date may not move
    /// before the shipment date), and a supplied item list
    /// wholesale-replaces the shipment's item rows after being checked.
    /// Stock is deliberately neither re-validated nor adjusted for removed
    /// or added lines.
    #[verifier::loop_isolation(false)]
    #[verifier::rlimit(60)]
    pub fn update(store: &mut Store, id: i32, dto: ShipmentUpdate) -> (r: Result<
        Shipment,
        AppError,
    >)
        requires
            old(store).wf(),
        ensures
            final(store).wf(),
            shipment_update_post(*old(store), id, dto, *final(store), r),
    {
        let si = match crate::store::find_shipment_index(&store.shipments, id) {
            Option::Some(i) => i,
            Option::None => {
                return Result::Err(AppError::NotFound);
            },
        };
        proof {
            let ss = store.shipments@;
            assert(has_shipment(ss, id));
            let j = shipment_index(ss, id);
            assert(0 <= j < ss.len() && ss[j].shipment_id == id);
            assert(j == si as int);
        }
        let ShipmentUpdate { status, expected_delivery_date, total_cost, items } = dto;
        // The patched expected delivery date may not precede the stored
        // shipment date.
        let new_expected = match &expected_delivery_date {
            Option::Some(d) => *d,
            Option::None => store.shipments[si].expected_delivery_date,
        };
        if new_expected < store.shipments[si].shipment_date {
            return Result::Err(
                AppError::Validation(
                    "Expected delivery date must not precede shipment date".to_owned(),
                ),
            );
        }
        // Check the replacement lines and build their rows before touching
        // anything, so a rejected request leaves the store as it was.
        let mut do_replace: bool = false;
        let mut new_rows: Vec<ShipmentItem> = Vec::new();
        if let Option::Some(its) = items {
            let ghost all_items = its@;
            let mut seen: Vec<i32> = Vec::new();
            let mut idx: usize = 0;
            proof {
                assert(all_items.skip(0) =~= all_items);
            }
            while idx < its.len()
                invariant
                    idx <= all_items.len(),
                    its@ == all_items,
                    seen@.len() == idx,
                    forall|j: int|
                        0 <= j < idx ==> #[trigger] seen@[j] == all_items[j].product_id,
                    forall|a: int, b: int|
                        #![trigger all_items[a].product_id, all_items[b].product_id]
                        0 <= a < b < idx ==> all_items[a].product_id != all_items[b].product_id,
                    forall|j: int|
                        0 <= j < idx ==> has_product(
                            store.products@,
                            #[trigger] all_items[j].product_id,
                        ) && all_items[j].quantity > 0,
                    check_shipment_items(store.products@, Seq::<i32>::empty(), all_items)
                        == check_shipment_items(
                        store.products@,
                        seen@,
                        all_items.skip(idx as int),
                    ),
                decreases all_items.len() - idx,
            {
                proof {
                    assert(all_items.skip(idx as int).len() > 0);
                    assert(all_items.skip(idx as int)[0] == all_items[idx as int]);
                }
                let it = its[idx];
                if it.quantity <= 0 {
                    return Result::Err(
                        AppError::Validation("Quantity must be positive".to_owned()),
                    );
                }
                if crate::store::id_list_contains(&seen, it.product_id) {
                    return Result::Err(AppError::Storage);
                }
                match crate::store::find_product_index(&store.products, it.product_id) {
                    Option::Some(_) => {},
                    Option::None => {
                        return Result::Err(AppError::NotFound);
                    },
                }
                let ghost seen1 = seen@;
                seen.push(it.product_id);
                idx = idx + 1;
                proof {
                    assert(all_items.skip(idx - 1).drop_first() =~= all_items.skip(idx as int));
                    assert forall|a: int| #![trigger all_items[a]] 0 <= a < idx - 1 implies
                        all_items[a].product_id != all_items[idx - 1].product_id by {
                        assert(seen1[a] == all_items[a].product_id);
                    }
                }
            }
            proof {
                assert(all_items.skip(all_items.len() as int).len() == 0);
                assert(check_shipment_items(store.products@, Seq::<i32>::empty(), all_items)
                    is Accepted);
            }
            let mut k2: usize = 0;
            while k2 < its.len()
                invariant
                    k2 <= all_items.len(),
                    its@ == all_items,
                    new_rows@ == shipment_item_rows(id, all_items.take(k2 as int)),
                decreases all_items.len() - k2,
            {
                let it = its[k2];
                new_rows.push(
                    ShipmentItem {
                        shipment_id: id,
                        product_id: it.product_id,
                        quantity: it.quantity,
                        unit_cost: it.unit_cost,
                    },
                );
                proof {
                    assert(shipment_item_rows(id, all_items.take(k2 + 1)) =~= shipment_item_rows(
                        id,
                        all_items.take(k2 as int),
                    ).push(new_rows@.last()));
                }
                k2 = k2 + 1;
            }
            proof {
                assert(all_items.take(all_items.len() as int) =~= all_items);
            }
            do_replace = true;
        }
        let ghost pre = *store;
        let ghost rows_snapshot = new_rows@;
        let mut row = store.shipments[si].duplicate();
        if let Option::Some(s) = status {
            row.status = s;
        }
        if let Option::Some(d) = expected_delivery_date {
            row.expected_delivery_date = d;
        }
        if let Option::Some(c) = total_cost {
            row.total_cost = c;
        }
        let result = row.duplicate();
        store.shipments[si] = row;
        if do_replace {
            let ghost items0 = pre.shipment_items@;
            let mut kept: Vec<ShipmentItem> = Vec::new();
            let mut k: usize = 0;
            while k < store.shipment_items.len()
                invariant
                    k <= items0.len(),
                    store.shipment_items@ == items0,
                    store.shipments@ == pre.shipments@.update(si as int, result),
                    si < pre.shipments@.len(),
                    kept@ == shipment_items_without(items0.take(k as int), id),
                decreases items0.len() - k,
            {
                let it = store.shipment_items[k];
                proof {
                    reveal_with_fuel(Seq::filter, 2);
                    assert(items0.take(k + 1).drop_last() =~= items0.take(k as int));
                    assert(items0.take(k + 1).last() == it);
                    if it.shipment_id != id {
                        assert(shipment_items_without(items0.take(k + 1), id)
                            == shipment_items_without(items0.take(k as int), id).push(it));
                    } else {
                        assert(shipment_items_without(items0.take(k + 1), id)
                            == shipment_items_without(items0.take(k as int), id));
                    }
                }
                if it.shipment_id != id {
                    kept.push(it);
                }
                k = k + 1;
            }
            proof {
                assert(items0.take(items0.len() as int) =~= items0);
            }
            kept.append(&mut new_rows);
            store.shipment_items = kept;
        }
        proof {
            let post = *store;
            assert(post.shipments@[si as int] == result);
            assert forall|i: int, j: int| 0 <= i < j < post.shipments@.len() implies post.shipments@[i].shipment_id
                != post.shipments@[j].shipment_id by {
                assert(pre.shipments@[i].shipment_id != pre.shipments@[j].shipment_id);
                assert(post.shipments@[i].shipment_id == pre.shipments@[i].shipment_id);
                assert(post.shipments@[j].shipment_id == pre.shipments@[j].shipment_id);
            }
            assert forall|i: int|
                0 <= i < post.shipments@.len() implies #[trigger] post.shipments@[i].shipment_id
                < post.next_shipment_id by {
                assert(pre.shipments@[i].shipment_id < pre.next_shipment_id);
            }
            assert forall|i: int|
                0 <= i < post.shipments@.len() implies #[trigger] post.shipments@[
                i
            ].expected_delivery_date >= post.shipments@[i].shipment_date by {
                if i != si as int {
                    assert(pre.shipments@[i].expected_delivery_date
                        >= pre.shipments@[i].shipment_date);
                }
            }
            Self::lemma_update_items_wf(
                pre,
                id,
                post,
                si as int,
                result,
                do_replace,
                rows_snapshot,
            );
        }
        Result::Ok(result)
    }

    /// The replaced or retained item rows still satisfy the store
    /// invariant after a shipment update.
    proof fn lemma_update_items_wf(
        pre: Store,
        id: i32,
        post: Store,
        si: int,
        patched: Shipment,
        replaced: bool,
        rows: Seq<ShipmentItem>,
    )
        requires
            pre.wf(),
            0 <= si < pre.shipments@.len(),
            pre.shipments@[si].shipment_id == id,
            patched.shipment_id == id,
            post.shipments@ == pre.shipments@.update(si, patched),
            post.products@ == pre.products@,
            post.orders@ == pre.orders@,
            post.order_items@ == pre.order_items@,
            !replaced ==> post.shipment_items@ == pre.shipment_items@,
            replaced ==> post.shipment_items@ == shipment_items_without(pre.shipment_items@, id)
                + rows,
            replaced ==> forall|j: int|
                0 <= j < rows.len() ==> (#[trigger] rows[j]).shipment_id == id && has_product(
                    pre.products@,
                    rows[j].product_id,
                ) && rows[j].quantity > 0,
            replaced ==> forall|a: int, b: int|
                #![trigger rows[a].product_id, rows[b].product_id]
                0 <= a < b < rows.len() ==> rows[a].product_id != rows[b].product_id,
        ensures
            post.shipment_items_wf(),
            post.order_items_wf(),
    {
        assert forall|w: int| 0 <= w < pre.shipments@.len() implies post.shipments@[w].shipment_id
            == pre.shipments@[w].shipment_id by {}
        assert forall|i: int|
            0 <= i < post.order_items@.len() implies {
            &&& crate::model::has_order(post.orders@, #[trigger] post.order_items@[i].order_id)
            &&& has_product(post.products@, post.order_items@[i].product_id)
            &&& post.order_items@[i].quantity > 0
        } by {
            assert(pre.order_items@[i] == post.order_items@[i]);
        }
        if !replaced {
            assert forall|i: int|
                0 <= i < post.shipment_items@.len() implies {
                &&& has_shipment(post.shipments@, #[trigger] post.shipment_items@[i].shipment_id)
                &&& has_product(post.products@, post.shipment_items@[i].product_id)
                &&& post.shipment_items@[i].quantity > 0
            } by {
                let it = pre.shipment_items@[i];
                let w = choose|w: int|
                    0 <= w < pre.shipments@.len() && pre.shipments@[w].shipment_id
                        == it.shipment_id;
                assert(post.shipments@[w].shipment_id == it.shipment_id);
            }
            assert forall|i: int, j: int|
                #![trigger post.shipment_items@[i], post.shipment_items@[j]]
                0 <= i < j < post.shipment_items@.len() implies !(
                post.shipment_items@[i].shipment_id == post.shipment_items@[j].shipment_id
                && post.shipment_items@[i].product_id
                == post.shipment_items@[j].product_id) by {
                assert(pre.shipment_items@[i] == post.shipment_items@[i]);
                assert(pre.shipment_items@[j] == post.shipment_items@[j]);
            }
        } else {
            let wsid = shipment_items_without(pre.shipment_items@, id);
            let keeppred = |it: ShipmentItem| it.shipment_id != id;
            let n = wsid.len() as int;
            assert forall|i: int|
                0 <= i < post.shipment_items@.len() implies {
                &&& has_shipment(post.shipments@, #[trigger] post.shipment_items@[i].shipment_id)
                &&& has_product(post.products@, post.shipment_items@[i].product_id)
                &&& post.shipment_items@[i].quantity > 0
            } by {
                if i < n {
                    let it = wsid[i];
                    crate::model::lemma_filter_member(pre.shipment_items@, keeppred, i);
                    let u = choose|u: int|
                        0 <= u < pre.shipment_items@.len() && pre.shipment_items@[u] == it;
                    let w = choose|w: int|
                        0 <= w < pre.shipments@.len() && pre.shipments@[w].shipment_id
                            == it.shipment_id;
                    assert(post.shipments@[w].shipment_id == it.shipment_id);
                } else {
                    let it = rows[i - n];
                    assert(it.shipment_id == id);
                    assert(post.shipments@[si].shipment_id == id);
                }
            }
            assert forall|i: int, j: int|
                #![trigger post.shipment_items@[i], post.shipment_items@[j]]
                0 <= i < j < post.shipment_items@.len() implies !(
                post.shipment_items@[i].shipment_id == post.shipment_items@[j].shipment_id
                && post.shipment_items@[i].product_id
                == post.shipment_items@[j].product_id) by {
                if j < n {
                    crate::model::lemma_filter_pairwise(
                        pre.shipment_items@,
                        keeppred,
                        |x: ShipmentItem, y: ShipmentItem|
                            !(x.shipment_id == y.shipment_id && x.product_id == y.product_id),
                        i,
                        j,
                    );
                } else if i < n {
                    // A retained row never carries the updated shipment's id.
                    pre.shipment_items@.lemma_filter_pred(keeppred, i);
                    assert(post.shipment_items@[j].shipment_id == id);
                } else {
                    assert(rows[i - n].product_id != rows[j - n].product_id);
                }
            }
        }
    }

    /// Deletes a shipment header; its item rows go with it. Stock is
    /// deliberately not reversed.
    #[verifier::loop_isolation(false)]
    pub fn delete(store: &mut Store, id: i32) -> (r: Result<(), AppError>)
        requires
            old(store).wf(),
        ensures
            final(store).wf(),
            match r {
                Result::Ok(_) => {
                    &&& has_shipment(old(store).shipments@, id)
                    &&& final(store).shipments@ == old(store).shipments@.remove(
                        shipment_index(old(store).shipments@, id),
                    )
                    &&& final(store).shipment_items@ == shipment_items_without(
                        old(store).shipment_items@,
                        id,
                    )
                    &&& final(store).products@ == old(store).products@
                    &&& final(store).orders@ == old(store).orders@
                    &&& final(store).order_items@ == old(store).order_items@
                    &&& final(store).categories@ == old(store).categories@
                    &&& final(store).customers@ == old(store).customers@
                    &&& final(store).suppliers@ == old(store).suppliers@
                    &&& final(store).next_product_id == old(store).next_product_id
                    &&& final(store).next_order_id == old(store).next_order_id
                    &&& final(store).next_shipment_id == old(store).next_shipment_id
                    &&& final(store).next_category_id == old(store).next_category_id
                    &&& final(store).next_customer_id == old(store).next_customer_id
                    &&& final(store).next_supplier_id == old(store).next_supplier_id
                },
                Result::Err(e) => {
                    &&& e is NotFound
                    &&& !has_shipment(old(store).shipments@, id)
                    &&& *final(store) == *old(store)
                },
            },
    {
        let si = match crate::store::find_shipment_index(&store.shipments, id) {
            Option::Some(i) => i,
            Option::None => {
                return Result::Err(AppError::NotFound);
            },
        };
        proof {
            let ss = store.shipments@;
            assert(has_shipment(ss, id));
            let j = shipment_index(ss, id);
            assert(0 <= j < ss.len() && ss[j].shipment_id == id);
            assert(j == si as int);
        }
        let ghost pre = *store;
        store.shipments.remove(si);
        let ghost items0 = store.shipment_items@;
        let mut kept: Vec<ShipmentItem> = Vec::new();
        let mut k: usize = 0;
        while k < store.shipment_items.len()
            invariant
                k <= items0.len(),
                store.shipment_items@ == items0,
                store.shipments@ == pre.shipments@.remove(si as int),
                kept@ == shipment_items_without(items0.take(k as int), id),
            decreases items0.len() - k,
        {
            let it = store.shipment_items[k];
            proof {
                reveal_with_fuel(Seq::filter, 2);
                assert(items0.take(k + 1).drop_last() =~= items0.take(k as int));
                assert(items0.take(k + 1).last() == it);
                if it.shipment_id != id {
                    assert(shipment_items_without(items0.take(k + 1), id)
                        == shipment_items_without(items0.take(k as int), id).push(it));
                } else {
                    assert(shipment_items_without(items0.take(k + 1), id)
                        == shipment_items_without(items0.take(k as int), id));
                }
            }
            if it.shipment_id != id {
                kept.push(it);
            }
            k = k + 1;
        }
        proof {
            assert(items0.take(items0.len() as int) =~= items0);
        }
        store.shipment_items = kept;
        proof {
            let post = *store;
            let keeppred = |it: ShipmentItem| it.shipment_id != id;
            assert forall|i: int, j: int| 0 <= i < j < post.shipments@.len() implies post.shipments@[i].shipment_id
                != post.shipments@[j].shipment_id by {
                if i < si as int {
                    if j < si as int {
                        assert(pre.shipments@[i].shipment_id != pre.shipments@[j].shipment_id);
                    } else {
                        assert(pre.shipments@[i].shipment_id != pre.shipments@[j
                            + 1].shipment_id);
                    }
                } else {
                    assert(pre.shipments@[i + 1].shipment_id != pre.shipments@[j
                        + 1].shipment_id);
                }
            }
            assert forall|i: int|
                0 <= i < post.shipments@.len() implies #[trigger] post.shipments@[i].shipment_id
                < post.next_shipment_id by {
                if i < si as int {
                    assert(pre.shipments@[i].shipment_id < pre.next_shipment_id);
                } else {
                    assert(pre.shipments@[i + 1].shipment_id < pre.next_shipment_id);
                }
            }
            assert forall|i: int|
                0 <= i < post.shipments@.len() implies #[trigger] post.shipments@[
                i
            ].expected_delivery_date >= post.shipments@[i].shipment_date by {
                if i < si as int {
                    assert(pre.shipments@[i].expected_delivery_date
                        >= pre.shipments@[i].shipment_date);
                } else {
                    assert(pre.shipments@[i + 1].expected_delivery_date >= pre.shipments@[i
                        + 1].shipment_date);
                }
            }
            assert forall|i: int|
                0 <= i < post.shipment_items@.len() implies {
                &&& has_shipment(post.shipments@, #[trigger] post.shipment_items@[i].shipment_id)
                &&& has_product(post.products@, post.shipment_items@[i].product_id)
                &&& post.shipment_items@[i].quantity > 0
            } by {
                let it = post.shipment_items@[i];
                crate::model::lemma_filter_member(pre.shipment_items@, keeppred, i);
                let u = choose|u: int|
                    0 <= u < pre.shipment_items@.len() && pre.shipment_items@[u] == it;
                pre.shipment_items@.lemma_filter_pred(keeppred, i);
                assert(keeppred(it));
                let w = choose|w: int|
                    0 <= w < pre.shipments@.len() && pre.shipments@[w].shipment_id
                        == it.shipment_id;
                assert(pre.shipments@[w].shipment_id != id);
                assert(w != si as int);
                if w < si as int {
                    assert(post.shipments@[w].shipment_id == it.shipment_id);
                } else {
                    assert(post.shipments@[w - 1].shipment_id == it.shipment_id);
                }
            }
            assert forall|i: int, j: int|
                #![trigger post.shipment_items@[i], post.shipment_items@[j]]
                0 <= i < j < post.shipment_items@.len() implies !(
                post.shipment_items@[i].shipment_id == post.shipment_items@[j].shipment_id
                && post.shipment_items@[i].product_id
                == post.shipment_items@[j].product_id) by {
                crate::model::lemma_filter_pairwise(
                    pre.shipment_items@,
                    keeppred,
                    |x: ShipmentItem, y: ShipmentItem|
                        !(x.shipment_id == y.shipment_id && x.product_id == y.product_id),
                    i,
                    j,
                );
            }
        }
        Result::Ok(())
    }

    /// The shipment header with this id together with its item rows, in
    /// table order.
    #[verifier::loop_isolation(false)]
    pub fn find_with_details(store: &Store, id: i32) -> (r: Result<
        (Shipment, Vec<ShipmentItem>),
        AppError,
    >)
        requires
            store.wf(),
        ensures
            match r {
                Result::Ok(p) => {
                    &&& has_shipment(store.shipments@, id)
                    &&& p.0 == store.shipments@[shipment_index(store.shipments@, id)]
                    &&& p.1@ == shipment_items_of(store.shipment_items@, id)
                },
                Result::Err(e) => e is NotFound && !has_shipment(store.shipments@, id),
            },
    {
        let header = match Self::find_by_id(store, id) {
            Result::Ok(s) => s,
            Result::Err(e) => {
                return Result::Err(e);
            },
        };
        let ghost items0 = store.shipment_items@;
        let mut items: Vec<ShipmentItem> = Vec::new();
        let mut k: usize = 0;
        while k < store.shipment_items.len()
            invariant
                k <= items0.len(),
                store.shipment_items@ == items0,
                items@ == shipment_items_of(items0.take(k as int), id),
            decreases items0.len() - k,
        {
            let it = store.shipment_items[k];
            proof {
                reveal_with_fuel(Seq::filter, 2);
                assert(items0.take(k + 1).drop_last() =~= items0.take(k as int));
                assert(items0.take(k + 1).last() == it);
                if it.shipment_id == id {
                    assert(shipment_items_of(items0.take(k + 1), id) == shipment_items_of(
                        items0.take(k as int),
                        id,
                    ).push(it));
                } else {
                    assert(shipment_items_of(items0.take(k + 1), id) == shipment_items_of(
                        items0.take(k as int),
                        id,
                    ));
                }
            }
            if it.shipment_id == id {
                items.push(it);
            }
            k = k + 1;
        }
        proof {
            assert(items0.take(items0.len() as int) =~= items0);
        }
        Result::Ok((header, items))
    }
}

} // verus!
