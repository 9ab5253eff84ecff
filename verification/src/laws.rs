//! Laws of the transaction engine, stated and proved once over the spec
//! functions that the services' contracts use.
//!
//! Every mutating service function ensures `final(store).wf()`, so the
//! facts proved here about well-formed stores hold after any committed
//! operation.

use vstd::prelude::*;

use crate::dtos::OrderItemCreate;
use crate::model::Product;
use crate::model::has_product;
use crate::model::product_ids_unique;
use crate::model::product_index;
use crate::model::stock_adjusted;
use crate::model::stock_of;
use crate::model::stocks_nonneg;
use crate::order_service::ItemsOutcome;
use crate::order_service::apply_order_items;
use crate::store::Store;

verus! {

/// Law: in every well-formed store — and every mutating service function
/// ensures the store it leaves behind is well-formed — each product's
/// stock counter is non-negative.
pub proof fn lemma_stock_never_negative(s: Store)
    requires
        s.wf(),
    ensures
        forall|i: int|
            0 <= i < s.products@.len() ==> #[trigger] s.products@[i].stock_quantity >= 0,
{
}

/// Law: an accepted list of order lines leaves the products table with
/// unchanged ids, every stock counter still non-negative, and ids still
/// unique. This is the "never negative" half of the ledger equation at
/// order-creation time: a line that would drive a counter below zero is
/// rejected instead of accepted.
pub proof fn lemma_accepted_order_keeps_stock_nonneg(
    ps: Seq<Product>,
    seen: Seq<i32>,
    items: Seq<OrderItemCreate>,
)
    requires
        product_ids_unique(ps),
        stocks_nonneg(ps),
    ensures
        apply_order_items(ps, seen, items) matches ItemsOutcome::Accepted { products } ==> {
            &&& product_ids_unique(products)
            &&& stocks_nonneg(products)
            &&& products.len() == ps.len()
            &&& forall|k: int|
                0 <= k < ps.len() ==> (#[trigger] products[k]).product_id == ps[k].product_id
        },
    decreases items.len(),
{
    if items.len() == 0 {
    } else {
        let it = items[0];
        if it.quantity > 0 && !seen.contains(it.product_id) && has_product(ps, it.product_id)
            && stock_of(ps, it.product_id) >= it.quantity {
            let i = product_index(ps, it.product_id);
            let ps2 = stock_adjusted(ps, it.product_id, -(it.quantity as int));
            assert forall|a: int, b: int| 0 <= a < b < ps2.len() implies ps2[a].product_id
                != ps2[b].product_id by {
                assert(ps[a].product_id != ps[b].product_id);
            }
            assert forall|a: int| 0 <= a < ps2.len() implies ps2[a].stock_quantity >= 0 by {
                assert(ps[a].stock_quantity >= 0);
            }
            lemma_accepted_order_keeps_stock_nonneg(ps2, seen.push(it.product_id), items.drop_first());
        }
    }
}

/// Law: reserving the last units is exclusive. When a product's stock
/// covers a first order line but not a second one on top of it, running
/// the two single-line orders one after the other — and `&mut` access to
/// the store means any two operations do run one after the other — accepts
/// exactly the first and rejects the second for insufficient stock, and no
/// counter ever goes negative. In particular, with one unit in stock and
/// two orders asking for one unit each, exactly one succeeds.
pub proof fn lemma_exclusive_reservation(ps: Seq<Product>, p: i32, first: OrderItemCreate, second: OrderItemCreate)
    requires
        product_ids_unique(ps),
        stocks_nonneg(ps),
        has_product(ps, p),
        first.product_id == p,
        second.product_id == p,
        first.quantity > 0,
        second.quantity > 0,
        stock_of(ps, p) >= first.quantity,
        stock_of(ps, p) - first.quantity < second.quantity,
    ensures
        ({
            let outcome = apply_order_items(ps, Seq::<i32>::empty(), seq![first]);
            &&& (outcome matches ItemsOutcome::Accepted { products } && {
                &&& stock_of(products, p) == stock_of(ps, p) - first.quantity
                &&& stocks_nonneg(products)
                &&& apply_order_items(products, Seq::<i32>::empty(), seq![second])
                    == ItemsOutcome::RejectedStock
            })
        }),
{
    let e = Seq::<i32>::empty();
    let items = seq![first];
    let i = product_index(ps, p);
    assert(0 <= i < ps.len() && ps[i].product_id == p);
    let ps2 = stock_adjusted(ps, p, -(first.quantity as int));
    assert(items[0] == first);
    assert(!e.contains(p));
    assert(items.drop_first().len() == 0);
    assert(apply_order_items(ps2, e.push(p), items.drop_first()) == (ItemsOutcome::Accepted {
        products: ps2,
    }));
    assert(apply_order_items(ps, e, items) == (ItemsOutcome::Accepted { products: ps2 }));
    assert(ps2[i].product_id == p);
    assert(ps2[i].stock_quantity == stock_of(ps, p) - first.quantity);
    assert forall|a: int, b: int| 0 <= a < b < ps2.len() implies ps2[a].product_id
        != ps2[b].product_id by {
        assert(ps[a].product_id != ps[b].product_id);
    }
    assert forall|a: int| 0 <= a < ps2.len() implies ps2[a].stock_quantity >= 0 by {
        assert(ps[a].stock_quantity >= 0);
    }
    assert(has_product(ps2, p));
    let i2 = product_index(ps2, p);
    assert(0 <= i2 < ps2.len() && ps2[i2].product_id == p);
    assert(i2 == i);
    assert(stock_of(ps2, p) == stock_of(ps, p) - first.quantity);
    let items2 = seq![second];
    assert(items2[0] == second);
    assert(items2.len() == 1);
    assert(stock_of(ps2, p) < second.quantity);
    assert(apply_order_items(ps2, e, items2) == ItemsOutcome::RejectedStock);
}

/// Law: a product update never touches document rows, so the unit price
/// snapshotted on an order's item rows when the order was created keeps
/// its stored value whatever later happens to the product's own price.
/// (`ProductService::update` and `ProductService::update_stock` ensure
/// exactly the two equalities required here.)
pub proof fn lemma_price_is_a_snapshot(pre: Store, post: Store, id: i32, replacement: Product)
    requires
        post.products@ == pre.products@.update(product_index(pre.products@, id), replacement),
        post.order_items@ == pre.order_items@,
    ensures
        forall|k: int|
            0 <= k < post.order_items@.len() ==> #[trigger] post.order_items@[k].unit_price
                == pre.order_items@[k].unit_price,
{
}

} // verus!
