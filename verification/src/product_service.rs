//! Product catalog operations.
//!
//! Products are the only rows both transaction processors mutate, so the
//! contracts here are explicit about what is left alone: changing a
//! product's price (or any other field) never touches the order-items or
//! shipment-items tables, which is what keeps the unit prices snapshotted
//! on existing documents accurate. A product referenced by any document
//! line cannot be deleted.

use vstd::prelude::*;

use crate::dtos::ProductCreate;
use crate::dtos::ProductUpdate;
use crate::error::AppError;
use crate::model::OrderItem;
use crate::model::Product;
use crate::model::ShipmentItem;
use crate::model::has_product;
use crate::model::product_index;
use crate::model::product_referenced;
use crate::store::Store;

verus! {

/// A product row with an update request's present fields applied.
pub open spec fn patched_product(p: Product, dto: ProductUpdate) -> Product {
    Product {
        product_id: p.product_id,
        name: match dto.name {
            Option::Some(n) => n,
            Option::None => p.name,
        },
        description: match dto.description {
            Option::Some(d) => Option::Some(d),
            Option::None => p.description,
        },
        price: match dto.price {
            Option::Some(pr) => pr,
            Option::None => p.price,
        },
        stock_quantity: match dto.stock_quantity {
            Option::Some(s) => s,
            Option::None => p.stock_quantity,
        },
        category_id: match dto.category_id {
            Option::Some(c) => c,
            Option::None => p.category_id,
        },
        supplier_id: match dto.supplier_id {
            Option::Some(s) => s,
            Option::None => p.supplier_id,
        },
    }
}

/// Whether any order line references this product.
fn order_items_reference(items: &Vec<OrderItem>, pid: i32) -> (r: bool)
    ensures
        r == exists|i: int| 0 <= i < items@.len() && items@[i].product_id == pid,
{
    let mut k: usize = 0;
    while k < items.len()
        invariant
            k <= items@.len(),
            forall|j: int| 0 <= j < k ==> items@[j].product_id != pid,
        decreases items@.len() - k,
    {
        if items[k].product_id == pid {
            return true;
        }
        k = k + 1;
    }
    false
}

/// Whether any shipment line references this product.
fn shipment_items_reference(items: &Vec<ShipmentItem>, pid: i32) -> (r: bool)
    ensures
        r == exists|i: int| 0 <= i < items@.len() && items@[i].product_id == pid,
{
    let mut k: usize = 0;
    while k < items.len()
        invariant
            k <= items@.len(),
            forall|j: int| 0 <= j < k ==> items@[j].product_id != pid,
        decreases items@.len() - k,
    {
        if items[k].product_id == pid {
            return true;
        }
        k = k + 1;
    }
    false
}

pub struct ProductService;

impl ProductService {
    /// All product rows, in table order.
    pub fn find_all(store: &Store) -> (r: Vec<Product>)
        ensures
            r@ == store.products@,
    {
        crate::store::duplicate_products(&store.products)
    }

    /// The product row with this id, or `NotFound`.
    pub fn find_by_id(store: &Store, id: i32) -> (r: Result<Product, AppError>)
        requires
            store.wf(),
        ensures
            match r {
                Result::Ok(p) => has_product(store.products@, id) && p
                    == store.products@[product_index(store.products@, id)],
                Result::Err(e) => e is NotFound && !has_product(store.products@, id),
            },
    {
        match crate::store::find_product_index(&store.products, id) {
            Option::Some(i) => {
                proof {
                    let ps = store.products@;
                    assert(has_product(ps, id));
                    let j = product_index(ps, id);
                    assert(0 <= j < ps.len() && ps[j].product_id == id);
                    assert(j == i as int);
                }
                Result::Ok(store.products[i].duplicate())
            },
            Option::None => Result::Err(AppError::NotFound),
        }
    }

    /// Inserts a product. A negative initial stock level is rejected; the
    /// stored row otherwise carries the request's fields and a fresh id.
    pub fn create(store: &mut Store, dto: ProductCreate) -> (r: Result<Product, AppError>)
        requires
            old(store).wf(),
        ensures
            final(store).wf(),
            match r {
                Result::Ok(p) => {
                    &&& dto.stock_quantity >= 0
                    &&& old(store).next_product_id < i32::MAX
                    &&& p == (Product {
                        product_id: old(store).next_product_id,
                        name: dto.name,
                        description: dto.description,
                        price: dto.price,
                        stock_quantity: dto.stock_quantity,
                        category_id: dto.category_id,
                        supplier_id: dto.supplier_id,
                    })
                    &&& final(store).products@ == old(store).products@.push(p)
                    &&& final(store).next_product_id == old(store).next_product_id + 1
                    &&& final(store).orders@ == old(store).orders@
                    &&& final(store).order_items@ == old(store).order_items@
                    &&& final(store).shipments@ == old(store).shipments@
                    &&& final(store).shipment_items@ == old(store).shipment_items@
                    &&& final(store).categories@ == old(store).categories@
                    &&& final(store).customers@ == old(store).customers@
                    &&& final(store).suppliers@ == old(store).suppliers@
                    &&& final(store).next_order_id == old(store).next_order_id
                    &&& final(store).next_shipment_id == old(store).next_shipment_id
                    &&& final(store).next_category_id == old(store).next_category_id
                    &&& final(store).next_customer_id == old(store).next_customer_id
                    &&& final(store).next_supplier_id == old(store).next_supplier_id
                },
                Result::Err(e) => {
                    &&& *final(store) == *old(store)
                    &&& if dto.stock_quantity < 0 {
                        e matches AppError::Validation(m) && m@
                            == "Stock quantity must not be negative"@
                    } else {
                        old(store).next_product_id == i32::MAX && e is Storage
                    }
                },
            },
    {
        if dto.stock_quantity < 0 {
            return Result::Err(
                AppError::Validation("Stock quantity must not be negative".to_owned()),
            );
        }
        if store.next_product_id == i32::MAX {
            return Result::Err(AppError::Storage);
        }
        let ghost pre = *store;
        let pid = store.next_product_id;
        let row = Product {
            product_id: pid,
            name: dto.name,
            description: dto.description,
            price: dto.price,
            stock_quantity: dto.stock_quantity,
            category_id: dto.category_id,
            supplier_id: dto.supplier_id,
        };
        let result = row.duplicate();
        store.next_product_id = pid + 1;
        store.products.push(row);
        proof {
            let post = *store;
            assert(post.products@ == pre.products@.push(result));
            assert forall|i: int, j: int| 0 <= i < j < post.products@.len() implies post.products@[i].product_id
                != post.products@[j].product_id by {
                if j < pre.products@.len() {
                    assert(pre.products@[i].product_id != pre.products@[j].product_id);
                } else {
                    assert(pre.products@[i].product_id < pre.next_product_id);
                }
            }
            assert forall|i: int|
                0 <= i < post.order_items@.len() implies {
                &&& crate::model::has_order(
                    post.orders@,
                    #[trigger] post.order_items@[i].order_id,
                )
                &&& has_product(post.products@, post.order_items@[i].product_id)
                &&& post.order_items@[i].quantity > 0
            } by {
                assert(crate::model::has_order(pre.orders@, pre.order_items@[i].order_id));
                assert(has_product(pre.products@, pre.order_items@[i].product_id));
                let v = choose|v: int|
                    0 <= v < pre.products@.len() && pre.products@[v].product_id
                        == pre.order_items@[i].product_id;
                assert(post.products@[v].product_id == pre.order_items@[i].product_id);
            }
            assert forall|i: int|
                0 <= i < post.shipment_items@.len() implies {
                &&& crate::model::has_shipment(
                    post.shipments@,
                    #[trigger] post.shipment_items@[i].shipment_id,
                )
                &&& has_product(post.products@, post.shipment_items@[i].product_id)
                &&& post.shipment_items@[i].quantity > 0
            } by {
                assert(crate::model::has_shipment(
                    pre.shipments@,
                    pre.shipment_items@[i].shipment_id,
                ));
                assert(has_product(pre.products@, pre.shipment_items@[i].product_id));
                let v = choose|v: int|
                    0 <= v < pre.products@.len() && pre.products@[v].product_id
                        == pre.shipment_items@[i].product_id;
                assert(post.products@[v].product_id == pre.shipment_items@[i].product_id);
            }
        }
        Result::Ok(result)
    }

    /// Applies an update request to a product: fields present in the patch
    /// are overwritten. A negative stock level is rejected. No document
    /// row is touched: in particular, unit prices already snapshotted on
    /// order and shipment items keep their stored values whatever happens
    /// to the product's price.
    pub fn update(store: &mut Store, id: i32, dto: ProductUpdate) -> (r: Result<
        Product,
        AppError,
    >)
        requires
            old(store).wf(),
        ensures
            final(store).wf(),
            match r {
                Result::Ok(p) => {
                    &&& has_product(old(store).products@, id)
                    &&& (match dto.stock_quantity {
                        Option::Some(s) => s >= 0,
                        Option::None => true,
                    })
                    &&& p == patched_product(
                        old(store).products@[product_index(old(store).products@, id)],
                        dto,
                    )
                    &&& final(store).products@ == old(store).products@.update(
                        product_index(old(store).products@, id),
                        p,
                    )
                    &&& final(store).orders@ == old(store).orders@
                    &&& final(store).order_items@ == old(store).order_items@
                    &&& final(store).shipments@ == old(store).shipments@
                    &&& final(store).shipment_items@ == old(store).shipment_items@
                    &&& final(store).categories@ == old(store).categories@
                    &&& final(store).customers@ == old(store).customers@
                    &&& final(store).suppliers@ == old(store).suppliers@
                    &&& final(store).next_product_id == old(store).next_product_id
                    &&& final(store).next_order_id == old(store).next_order_id
                    &&& final(store).next_shipment_id == old(store).next_shipment_id
                    &&& final(store).next_category_id == old(store).next_category_id
                    &&& final(store).next_customer_id == old(store).next_customer_id
                    &&& final(store).next_supplier_id == old(store).next_supplier_id
                },
                Result::Err(e) => {
                    &&& *final(store) == *old(store)
                    &&& if !has_product(old(store).products@, id) {
                        e is NotFound
                    } else {
                        &&& (dto.stock_quantity matches Option::Some(s) && s < 0)
                        &&& (e matches AppError::Validation(m) && m@
                            == "Stock quantity must not be negative"@)
                    }
                },
            },
    {
        let i = match crate::store::find_product_index(&store.products, id) {
            Option::Some(i) => i,
            Option::None => {
                return Result::Err(AppError::NotFound);
            },
        };
        proof {
            let ps = store.products@;
            assert(has_product(ps, id));
            let j = product_index(ps, id);
            assert(0 <= j < ps.len() && ps[j].product_id == id);
            assert(j == i as int);
        }
        if let Option::Some(s) = &dto.stock_quantity {
            if *s < 0 {
                return Result::Err(
                    AppError::Validation("Stock quantity must not be negative".to_owned()),
                );
            }
        }
        let ghost pre = *store;
        let mut row = store.products[i].duplicate();
        let ProductUpdate { name, description, price, stock_quantity, category_id, supplier_id } =
            dto;
        if let Option::Some(n) = name {
            row.name = n;
        }
        if let Option::Some(d) = description {
            row.description = Option::Some(d);
        }
        if let Option::Some(pr) = price {
            row.price = pr;
        }
        if let Option::Some(s) = stock_quantity {
            row.stock_quantity = s;
        }
        if let Option::Some(c) = category_id {
            row.category_id = c;
        }
        if let Option::Some(sup) = supplier_id {
            row.supplier_id = sup;
        }
        let result = row.duplicate();
        store.products[i] = row;
        proof {
            let post = *store;
            assert(post.products@[i as int] == result);
            assert forall|a: int, b: int| 0 <= a < b < post.products@.len() implies post.products@[a].product_id
                != post.products@[b].product_id by {
                assert(pre.products@[a].product_id != pre.products@[b].product_id);
                assert(post.products@[a].product_id == pre.products@[a].product_id);
                assert(post.products@[b].product_id == pre.products@[b].product_id);
            }
            assert forall|a: int|
                0 <= a < post.products@.len() implies #[trigger] post.products@[a].stock_quantity
                >= 0 by {
                if a != i as int {
                    assert(pre.products@[a].stock_quantity >= 0);
                }
            }
            assert forall|a: int|
                0 <= a < post.products@.len() implies #[trigger] post.products@[a].product_id
                < post.next_product_id by {
                assert(pre.products@[a].product_id < pre.next_product_id);
            }
            assert forall|a: int|
                0 <= a < post.order_items@.len() implies {
                &&& crate::model::has_order(
                    post.orders@,
                    #[trigger] post.order_items@[a].order_id,
                )
                &&& has_product(post.products@, post.order_items@[a].product_id)
                &&& post.order_items@[a].quantity > 0
            } by {
                assert(crate::model::has_order(pre.orders@, pre.order_items@[a].order_id));
                assert(has_product(pre.products@, pre.order_items@[a].product_id));
                let v = choose|v: int|
                    0 <= v < pre.products@.len() && pre.products@[v].product_id
                        == pre.order_items@[a].product_id;
                assert(post.products@[v].product_id == pre.order_items@[a].product_id);
            }
            assert forall|a: int|
                0 <= a < post.shipment_items@.len() implies {
                &&& crate::model::has_shipment(
                    post.shipments@,
                    #[trigger] post.shipment_items@[a].shipment_id,
                )
                &&& has_product(post.products@, post.shipment_items@[a].product_id)
                &&& post.shipment_items@[a].quantity > 0
            } by {
                assert(crate::model::has_shipment(
                    pre.shipments@,
                    pre.shipment_items@[a].shipment_id,
                ));
                assert(has_product(pre.products@, pre.shipment_items@[a].product_id));
                let v = choose|v: int|
                    0 <= v < pre.products@.len() && pre.products@[v].product_id
                        == pre.shipment_items@[a].product_id;
                assert(post.products@[v].product_id == pre.shipment_items@[a].product_id);
            }
        }
        Result::Ok(result)
    }

    /// Deletes a product row. A product still referenced by any order or
    /// shipment line is protected: the delete is refused as a storage
    /// error, mirroring the schema's restricted foreign keys.
    pub fn delete(store: &mut Store, id: i32) -> (r: Result<(), AppError>)
        requires
            old(store).wf(),
        ensures
            final(store).wf(),
            match r {
                Result::Ok(_) => {
                    &&& has_product(old(store).products@, id)
                    &&& !product_referenced(
                        old(store).order_items@,
                        old(store).shipment_items@,
                        id,
                    )
                    &&& final(store).products@ == old(store).products@.remove(
                        product_index(old(store).products@, id),
                    )
                    &&& final(store).orders@ == old(store).orders@
                    &&& final(store).order_items@ == old(store).order_items@
                    &&& final(store).shipments@ == old(store).shipments@
                    &&& final(store).shipment_items@ == old(store).shipment_items@
                    &&& final(store).categories@ == old(store).categories@
                    &&& final(store).customers@ == old(store).customers@
                    &&& final(store).suppliers@ == old(store).suppliers@
                    &&& final(store).next_product_id == old(store).next_product_id
                    &&& final(store).next_order_id == old(store).next_order_id
                    &&& final(store).next_shipment_id == old(store).next_shipment_id
                    &&& final(store).next_category_id == old(store).next_category_id
                    &&& final(store).next_customer_id == old(store).next_customer_id
                    &&& final(store).next_supplier_id == old(store).next_supplier_id
                },
                Result::Err(e) => {
                    &&& *final(store) == *old(store)
                    &&& if !has_product(old(store).products@, id) {
                        e is NotFound
                    } else {
                        &&& product_referenced(
                            old(store).order_items@,
                            old(store).shipment_items@,
                            id,
                        )
                        &&& e is Storage
                    }
                },
            },
    {
        let i = match crate::store::find_product_index(&store.products, id) {
            Option::Some(i) => i,
            Option::None => {
                return Result::Err(AppError::NotFound);
            },
        };
        proof {
            let ps = store.products@;
            assert(has_product(ps, id));
            let j = product_index(ps, id);
            assert(0 <= j < ps.len() && ps[j].product_id == id);
            assert(j == i as int);
        }
        if order_items_reference(&store.order_items, id) {
            return Result::Err(AppError::Storage);
        }
        if shipment_items_reference(&store.shipment_items, id) {
            return Result::Err(AppError::Storage);
        }
        let ghost pre = *store;
        store.products.remove(i);
        proof {
            let post = *store;
            assert forall|a: int, b: int| 0 <= a < b < post.products@.len() implies post.products@[a].product_id
                != post.products@[b].product_id by {
                if a < i as int {
                    if b < i as int {
                        assert(pre.products@[a].product_id != pre.products@[b].product_id);
                    } else {
                        assert(pre.products@[a].product_id != pre.products@[b + 1].product_id);
                    }
                } else {
                    assert(pre.products@[a + 1].product_id != pre.products@[b + 1].product_id);
                }
            }
            assert forall|a: int|
                0 <= a < post.products@.len() implies #[trigger] post.products@[a].stock_quantity
                >= 0 && post.products@[a].product_id < post.next_product_id by {
                if a < i as int {
                    assert(pre.products@[a].stock_quantity >= 0);
                    assert(pre.products@[a].product_id < pre.next_product_id);
                } else {
                    assert(pre.products@[a + 1].stock_quantity >= 0);
                    assert(pre.products@[a + 1].product_id < pre.next_product_id);
                }
            }
            assert forall|a: int|
                0 <= a < post.order_items@.len() implies {
                &&& crate::model::has_order(
                    post.orders@,
                    #[trigger] post.order_items@[a].order_id,
                )
                &&& has_product(post.products@, post.order_items@[a].product_id)
                &&& post.order_items@[a].quantity > 0
            } by {
                assert(crate::model::has_order(pre.orders@, pre.order_items@[a].order_id));
                assert(has_product(pre.products@, pre.order_items@[a].product_id));
                let v = choose|v: int|
                    0 <= v < pre.products@.len() && pre.products@[v].product_id
                        == pre.order_items@[a].product_id;
                assert(pre.order_items@[a].product_id != id);
                assert(v != i as int);
                if v < i as int {
                    assert(post.products@[v].product_id == pre.order_items@[a].product_id);
                } else {
                    assert(post.products@[v - 1].product_id == pre.order_items@[a].product_id);
                }
            }
            assert forall|a: int|
                0 <= a < post.shipment_items@.len() implies {
                &&& crate::model::has_shipment(
                    post.shipments@,
                    #[trigger] post.shipment_items@[a].shipment_id,
                )
                &&& has_product(post.products@, post.shipment_items@[a].product_id)
                &&& post.shipment_items@[a].quantity > 0
            } by {
                assert(crate::model::has_shipment(
                    pre.shipments@,
                    pre.shipment_items@[a].shipment_id,
                ));
                assert(has_product(pre.products@, pre.shipment_items@[a].product_id));
                let v = choose|v: int|
                    0 <= v < pre.products@.len() && pre.products@[v].product_id
                        == pre.shipment_items@[a].product_id;
                assert(pre.shipment_items@[a].product_id != id);
                assert(v != i as int);
                if v < i as int {
                    assert(post.products@[v].product_id == pre.shipment_items@[a].product_id);
                } else {
                    assert(post.products@[v - 1].product_id
                        == pre.shipment_items@[a].product_id);
                }
            }
        }
        Result::Ok(())
    }

    /// Writes a product's stock counter directly. A negative value is
    /// rejected, keeping the counter's invariant. Used by operators to
    /// correct stock outside the two document flows.
    pub fn update_stock(store: &mut Store, id: i32, new_quantity: i32) -> (r: Result<
        Product,
        AppError,
    >)
        requires
            old(store).wf(),
        ensures
            final(store).wf(),
            match r {
                Result::Ok(p) => {
                    &&& has_product(old(store).products@, id)
                    &&& new_quantity >= 0
                    &&& p == crate::model::with_stock(
                        old(store).products@[product_index(old(store).products@, id)],
                        new_quantity,
                    )
                    &&& final(store).products@ == old(store).products@.update(
                        product_index(old(store).products@, id),
                        p,
                    )
                    &&& final(store).orders@ == old(store).orders@
                    &&& final(store).order_items@ == old(store).order_items@
                    &&& final(store).shipments@ == old(store).shipments@
                    &&& final(store).shipment_items@ == old(store).shipment_items@
                    &&& final(store).categories@ == old(store).categories@
                    &&& final(store).customers@ == old(store).customers@
                    &&& final(store).suppliers@ == old(store).suppliers@
                    &&& final(store).next_product_id == old(store).next_product_id
                    &&& final(store).next_order_id == old(store).next_order_id
                    &&& final(store).next_shipment_id == old(store).next_shipment_id
                    &&& final(store).next_category_id == old(store).next_category_id
                    &&& final(store).next_customer_id == old(store).next_customer_id
                    &&& final(store).next_supplier_id == old(store).next_supplier_id
                },
                Result::Err(e) => {
                    &&& *final(store) == *old(store)
                    &&& if !has_product(old(store).products@, id) {
                        e is NotFound
                    } else {
                        new_quantity < 0 && (e matches AppError::Validation(m) && m@
                            == "Stock quantity must not be negative"@)
                    }
                },
            },
    {
        let i = match crate::store::find_product_index(&store.products, id) {
            Option::Some(i) => i,
            Option::None => {
                return Result::Err(AppError::NotFound);
            },
        };
        proof {
            let ps = store.products@;
            assert(has_product(ps, id));
            let j = product_index(ps, id);
            assert(0 <= j < ps.len() && ps[j].product_id == id);
            assert(j == i as int);
        }
        if new_quantity < 0 {
            return Result::Err(
                AppError::Validation("Stock quantity must not be negative".to_owned()),
            );
        }
        let ghost pre = *store;
        let mut row = store.products[i].duplicate();
        row.stock_quantity = new_quantity;
        let result = row.duplicate();
        store.products[i] = row;
        proof {
            let post = *store;
            assert(post.products@[i as int] == result);
            assert forall|a: int, b: int| 0 <= a < b < post.products@.len() implies post.products@[a].product_id
                != post.products@[b].product_id by {
                assert(pre.products@[a].product_id != pre.products@[b].product_id);
                assert(post.products@[a].product_id == pre.products@[a].product_id);
                assert(post.products@[b].product_id == pre.products@[b].product_id);
            }
            assert forall|a: int|
                0 <= a < post.products@.len() implies #[trigger] post.products@[a].stock_quantity
                >= 0 && post.products@[a].product_id < post.next_product_id by {
                if a != i as int {
                    assert(pre.products@[a].stock_quantity >= 0);
                }
                assert(pre.products@[a].product_id < pre.next_product_id);
            }
            assert forall|a: int|
                0 <= a < post.order_items@.len() implies {
                &&& crate::model::has_order(
                    post.orders@,
                    #[trigger] post.order_items@[a].order_id,
                )
                &&& has_product(post.products@, post.order_items@[a].product_id)
                &&& post.order_items@[a].quantity > 0
            } by {
                assert(crate::model::has_order(pre.orders@, pre.order_items@[a].order_id));
                assert(has_product(pre.products@, pre.order_items@[a].product_id));
                let v = choose|v: int|
                    0 <= v < pre.products@.len() && pre.products@[v].product_id
                        == pre.order_items@[a].product_id;
                assert(post.products@[v].product_id == pre.order_items@[a].product_id);
            }
            assert forall|a: int|
                0 <= a < post.shipment_items@.len() implies {
                &&& crate::model::has_shipment(
                    post.shipments@,
                    #[trigger] post.shipment_items@[a].shipment_id,
                )
                &&& has_product(post.products@, post.shipment_items@[a].product_id)
                &&& post.shipment_items@[a].quantity > 0
            } by {
                assert(crate::model::has_shipment(
                    pre.shipments@,
                    pre.shipment_items@[a].shipment_id,
                ));
                assert(has_product(pre.products@, pre.shipment_items@[a].product_id));
                let v = choose|v: int|
                    0 <= v < pre.products@.len() && pre.products@[v].product_id
                        == pre.shipment_items@[a].product_id;
                assert(post.products@[v].product_id == pre.shipment_items@[a].product_id);
            }
        }
        Result::Ok(result)
    }
}

} // verus!
