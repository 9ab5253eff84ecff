//! Stock Ledger primitives: the two directions of stock adjustment.
//!
//! `reserve` subtracts stock for a sale and fails rather than let the
//! counter go negative; `receive` adds stock for a delivery and fails only
//! when the counter would leave `i32`. Each is a single conditional
//! read-modify-write under the caller's exclusive `&mut` access, so the
//! check and the write cannot be separated by a concurrent operation; a
//! caller that works on a scratch copy of the products table gets the
//! all-or-nothing behaviour of a transaction.

use vstd::prelude::*;

use crate::error::AppError;
use crate::model::Product;
use crate::model::has_product;
use crate::model::product_ids_unique;
use crate::model::product_index;
use crate::model::stock_adjusted;
use crate::model::stock_of;
use crate::model::stocks_nonneg;
use crate::model::with_stock;

verus! {

/// Subtracts `quantity` from one product's stock, failing with a
/// validation error when the product's stock is too low, and leaving the
/// table untouched on any failure.
pub fn reserve(products: &mut Vec<Product>, product_id: i32, quantity: i32) -> (r: Result<
    (),
    AppError,
>)
    requires
        product_ids_unique(old(products)@),
        stocks_nonneg(old(products)@),
        quantity > 0,
    ensures
        product_ids_unique(final(products)@),
        stocks_nonneg(final(products)@),
        match r {
            Result::Ok(_) => {
                &&& has_product(old(products)@, product_id)
                &&& stock_of(old(products)@, product_id) >= quantity
                &&& final(products)@ == stock_adjusted(
                    old(products)@,
                    product_id,
                    -(quantity as int),
                )
            },
            Result::Err(e) => {
                &&& final(products)@ == old(products)@
                &&& if !has_product(old(products)@, product_id) {
                    e is NotFound
                } else {
                    &&& stock_of(old(products)@, product_id) < quantity
                    &&& (e matches AppError::Validation(m) && m@ == "Insufficient stock"@)
                }
            },
        },
{
    let i = match crate::store::find_product_index(products, product_id) {
        Option::Some(i) => i,
        Option::None => {
            return Result::Err(AppError::NotFound);
        },
    };
    proof {
        let ps = products@;
        assert(has_product(ps, product_id));
        let j = product_index(ps, product_id);
        assert(0 <= j < ps.len() && ps[j].product_id == product_id);
        assert(j == i as int);
    }
    let current = products[i].stock_quantity;
    if current < quantity {
        return Result::Err(AppError::Validation("Insufficient stock".to_owned()));
    }
    let ghost before = products@;
    products[i].stock_quantity = current - quantity;
    proof {
        assert(products@[i as int] == with_stock(before[i as int], (current - quantity) as i32));
        assert(products@ =~= stock_adjusted(before, product_id, -(quantity as int)));
        assert forall|k: int| 0 <= k < products@.len() implies products@[k].stock_quantity
            >= 0 by {
            assert(before[k].stock_quantity >= 0);
        }
        assert forall|k: int, l: int|
            0 <= k < l < products@.len() implies products@[k].product_id
            != products@[l].product_id by {
            assert(before[k].product_id != before[l].product_id);
        }
    }
    Result::Ok(())
}

/// Adds `quantity` to one product's stock, failing with a storage error
/// when the counter would exceed the column's bounds, and leaving the
/// table untouched on any failure.
pub fn receive(products: &mut Vec<Product>, product_id: i32, quantity: i32) -> (r: Result<
    (),
    AppError,
>)
    requires
        product_ids_unique(old(products)@),
        stocks_nonneg(old(products)@),
        quantity > 0,
    ensures
        product_ids_unique(final(products)@),
        stocks_nonneg(final(products)@),
        match r {
            Result::Ok(_) => {
                &&& has_product(old(products)@, product_id)
                &&& stock_of(old(products)@, product_id) + quantity <= i32::MAX
                &&& final(products)@ == stock_adjusted(old(products)@, product_id, quantity as int)
            },
            Result::Err(e) => {
                &&& final(products)@ == old(products)@
                &&& if !has_product(old(products)@, product_id) {
                    e is NotFound
                } else {
                    &&& stock_of(old(products)@, product_id) + quantity > i32::MAX
                    &&& e is Storage
                }
            },
        },
{
    let i = match crate::store::find_product_index(products, product_id) {
        Option::Some(i) => i,
        Option::None => {
            return Result::Err(AppError::NotFound);
        },
    };
    proof {
        let ps = products@;
        assert(has_product(ps, product_id));
        let j = product_index(ps, product_id);
        assert(0 <= j < ps.len() && ps[j].product_id == product_id);
        assert(j == i as int);
    }
    let current = products[i].stock_quantity;
    if current > i32::MAX - quantity {
        return Result::Err(AppError::Storage);
    }
    let ghost before = products@;
    products[i].stock_quantity = current + quantity;
    proof {
        assert(products@[i as int] == with_stock(before[i as int], (current + quantity) as i32));
        assert(products@ =~= stock_adjusted(before, product_id, quantity as int));
        assert forall|k: int| 0 <= k < products@.len() implies products@[k].stock_quantity
            >= 0 by {
            assert(before[k].stock_quantity >= 0);
        }
        assert forall|k: int, l: int|
            0 <= k < l < products@.len() implies products@[k].product_id
            != products@[l].product_id by {
            assert(before[k].product_id != before[l].product_id);
        }
    }
    Result::Ok(())
}

} // verus!
