//! Supplier catalog operations: plain single-table reads and writes with
//! no invariant beyond unique ids, plus the read that joins a supplier to
//! its products.

use vstd::prelude::*;

use crate::dtos::SupplierCreate;
use crate::dtos::SupplierUpdate;
use crate::error::AppError;
use crate::model::Product;
use crate::model::Supplier;
use crate::model::has_supplier;
use crate::model::products_of_supplier;
use crate::model::supplier_index;
use crate::store::Store;

verus! {

/// A supplier row with an update request's present fields applied.
pub open spec fn patched_supplier(s: Supplier, dto: SupplierUpdate) -> Supplier {
    Supplier {
        supplier_id: s.supplier_id,
        company_name: match dto.company_name {
            Option::Some(n) => n,
            Option::None => s.company_name,
        },
        contact_name: match dto.contact_name {
            Option::Some(c) => Option::Some(c),
            Option::None => s.contact_name,
        },
        email: match dto.email {
            Option::Some(e) => Option::Some(e),
            Option::None => s.email,
        },
        phone: match dto.phone {
            Option::Some(p) => Option::Some(p),
            Option::None => s.phone,
        },
        address: match dto.address {
            Option::Some(a) => Option::Some(a),
            Option::None => s.address,
        },
    }
}

pub struct SupplierService;

impl SupplierService {
    /// All supplier rows, in table order.
    pub fn find_all(store: &Store) -> (r: Vec<Supplier>)
        ensures
            r@ == store.suppliers@,
    {
        let mut out: Vec<Supplier> = Vec::new();
        let mut i: usize = 0;
        while i < store.suppliers.len()
            invariant
                i <= store.suppliers@.len(),
                out@ == store.suppliers@.take(i as int),
            decreases store.suppliers@.len() - i,
        {
            out.push(store.suppliers[i].duplicate());
            proof {
                assert(store.suppliers@.take(i + 1) =~= store.suppliers@.take(i as int).push(
                    store.suppliers@[i as int],
                ));
            }
            i = i + 1;
        }
        proof {
            assert(store.suppliers@.take(store.suppliers@.len() as int) =~= store.suppliers@);
        }
        out
    }

    /// The supplier row with this id, or `NotFound`.
    pub fn find_by_id(store: &Store, id: i32) -> (r: Result<Supplier, AppError>)
        requires
            store.wf(),
        ensures
            match r {
                Result::Ok(s) => has_supplier(store.suppliers@, id) && s
                    == store.suppliers@[supplier_index(store.suppliers@, id)],
                Result::Err(e) => e is NotFound && !has_supplier(store.suppliers@, id),
            },
    {
        match crate::store::find_supplier_index(&store.suppliers, id) {
            Option::Some(i) => {
                proof {
                    let ss = store.suppliers@;
                    assert(has_supplier(ss, id));
                    let j = supplier_index(ss, id);
                    assert(0 <= j < ss.len() && ss[j].supplier_id == id);
                    assert(j == i as int);
                }
                Result::Ok(store.suppliers[i].duplicate())
            },
            Option::None => Result::Err(AppError::NotFound),
        }
    }

    /// Inserts a supplier with a fresh id.
    pub fn create(store: &mut Store, dto: SupplierCreate) -> (r: Result<Supplier, AppError>)
        requires
            old(store).wf(),
        ensures
            final(store).wf(),
            match r {
                Result::Ok(s) => {
                    &&& old(store).next_supplier_id < i32::MAX
                    &&& s == (Supplier {
                        supplier_id: old(store).next_supplier_id,
                        company_name: dto.company_name,
                        contact_name: dto.contact_name,
                        email: dto.email,
                        phone: dto.phone,
                        address: dto.address,
                    })
                    &&& final(store).suppliers@ == old(store).suppliers@.push(s)
                    &&& final(store).next_supplier_id == old(store).next_supplier_id + 1
                    &&& *final(store) == (Store {
                        suppliers: final(store).suppliers,
                        next_supplier_id: final(store).next_supplier_id,
                        ..*old(store)
                    })
                },
                Result::Err(e) => {
                    &&& *final(store) == *old(store)
                    &&& old(store).next_supplier_id == i32::MAX
                    &&& e is Storage
                },
            },
    {
        if store.next_supplier_id == i32::MAX {
            return Result::Err(AppError::Storage);
        }
        let ghost pre = *store;
        let sid = store.next_supplier_id;
        let row = Supplier {
            supplier_id: sid,
            company_name: dto.company_name,
            contact_name: dto.contact_name,
            email: dto.email,
            phone: dto.phone,
            address: dto.address,
        };
        let result = row.duplicate();
        store.next_supplier_id = sid + 1;
        store.suppliers.push(row);
        proof {
            let post = *store;
            assert forall|i: int, j: int| 0 <= i < j < post.suppliers@.len() implies post.suppliers@[i].supplier_id
                != post.suppliers@[j].supplier_id by {
                if j < pre.suppliers@.len() {
                    assert(pre.suppliers@[i].supplier_id != pre.suppliers@[j].supplier_id);
                } else {
                    assert(pre.suppliers@[i].supplier_id < pre.next_supplier_id);
                }
            }
        }
        Result::Ok(result)
    }

    /// Applies an update request to a supplier: fields present in the
    /// patch are overwritten.
    pub fn update(store: &mut Store, id: i32, dto: SupplierUpdate) -> (r: Result<
        Supplier,
        AppError,
    >)
        requires
            old(store).wf(),
        ensures
            final(store).wf(),
            match r {
                Result::Ok(s) => {
                    &&& has_supplier(old(store).suppliers@, id)
                    &&& s == patched_supplier(
                        old(store).suppliers@[supplier_index(old(store).suppliers@, id)],
                        dto,
                    )
                    &&& final(store).suppliers@ == old(store).suppliers@.update(
                        supplier_index(old(store).suppliers@, id),
                        s,
                    )
                    &&& *final(store) == (Store { suppliers: final(store).suppliers, ..*old(store) })
                },
                Result::Err(e) => {
                    &&& *final(store) == *old(store)
                    &&& e is NotFound
                    &&& !has_supplier(old(store).suppliers@, id)
                },
            },
    {
        let i = match crate::store::find_supplier_index(&store.suppliers, id) {
            Option::Some(i) => i,
            Option::None => {
                return Result::Err(AppError::NotFound);
            },
        };
        proof {
            let ss = store.suppliers@;
            assert(has_supplier(ss, id));
            let j = supplier_index(ss, id);
            assert(0 <= j < ss.len() && ss[j].supplier_id == id);
            assert(j == i as int);
        }
        let ghost pre = *store;
        let mut row = store.suppliers[i].duplicate();
        let SupplierUpdate { company_name, contact_name, email, phone, address } = dto;
        if let Option::Some(n) = company_name {
            row.company_name = n;
        }
        if let Option::Some(c) = contact_name {
            row.contact_name = Option::Some(c);
        }
        if let Option::Some(e) = email {
            row.email = Option::Some(e);
        }
        if let Option::Some(p) = phone {
            row.phone = Option::Some(p);
        }
        if let Option::Some(a) = address {
            row.address = Option::Some(a);
        }
        let result = row.duplicate();
        store.suppliers[i] = row;
        proof {
            let post = *store;
            assert forall|a: int, b: int| 0 <= a < b < post.suppliers@.len() implies post.suppliers@[a].supplier_id
                != post.suppliers@[b].supplier_id by {
                assert(pre.suppliers@[a].supplier_id != pre.suppliers@[b].supplier_id);
                assert(post.suppliers@[a].supplier_id == pre.suppliers@[a].supplier_id);
                assert(post.suppliers@[b].supplier_id == pre.suppliers@[b].supplier_id);
            }
            assert forall|a: int|
                0 <= a < post.suppliers@.len() implies #[trigger] post.suppliers@[a].supplier_id
                < post.next_supplier_id by {
                assert(pre.suppliers@[a].supplier_id < pre.next_supplier_id);
            }
        }
        Result::Ok(result)
    }

    /// Deletes a supplier row.
    pub fn delete(store: &mut Store, id: i32) -> (r: Result<(), AppError>)
        requires
            old(store).wf(),
        ensures
            final(store).wf(),
            match r {
                Result::Ok(_) => {
                    &&& has_supplier(old(store).suppliers@, id)
                    &&& final(store).suppliers@ == old(store).suppliers@.remove(
                        supplier_index(old(store).suppliers@, id),
                    )
                    &&& *final(store) == (Store { suppliers: final(store).suppliers, ..*old(store) })
                },
                Result::Err(e) => {
                    &&& *final(store) == *old(store)
                    &&& e is NotFound
                    &&& !has_supplier(old(store).suppliers@, id)
                },
            },
    {
        let i = match crate::store::find_supplier_index(&store.suppliers, id) {
            Option::Some(i) => i,
            Option::None => {
                return Result::Err(AppError::NotFound);
            },
        };
        proof {
            let ss = store.suppliers@;
            assert(has_supplier(ss, id));
            let j = supplier_index(ss, id);
            assert(0 <= j < ss.len() && ss[j].supplier_id == id);
            assert(j == i as int);
        }
        let ghost pre = *store;
        store.suppliers.remove(i);
        proof {
            let post = *store;
            assert forall|a: int, b: int| 0 <= a < b < post.suppliers@.len() implies post.suppliers@[a].supplier_id
                != post.suppliers@[b].supplier_id by {
                if a < i as int {
                    if b < i as int {
                        assert(pre.suppliers@[a].supplier_id != pre.suppliers@[b].supplier_id);
                    } else {
                        assert(pre.suppliers@[a].supplier_id != pre.suppliers@[b
                            + 1].supplier_id);
                    }
                } else {
                    assert(pre.suppliers@[a + 1].supplier_id != pre.suppliers@[b
                        + 1].supplier_id);
                }
            }
            assert forall|a: int|
                0 <= a < post.suppliers@.len() implies #[trigger] post.suppliers@[a].supplier_id
                < post.next_supplier_id by {
                if a < i as int {
                    assert(pre.suppliers@[a].supplier_id < pre.next_supplier_id);
                } else {
                    assert(pre.suppliers@[a + 1].supplier_id < pre.next_supplier_id);
                }
            }
        }
        Result::Ok(())
    }

    /// The supplier row with this id together with the product rows that
    /// belong to it, in table order.
    #[verifier::loop_isolation(false)]
    pub fn find_with_products(store: &Store, id: i32) -> (r: Result<
        (Supplier, Vec<Product>),
        AppError,
    >)
        requires
            store.wf(),
        ensures
            match r {
                Result::Ok(p) => {
                    &&& has_supplier(store.suppliers@, id)
                    &&& p.0 == store.suppliers@[supplier_index(store.suppliers@, id)]
                    &&& p.1@ == products_of_supplier(store.products@, id)
                },
                Result::Err(e) => e is NotFound && !has_supplier(store.suppliers@, id),
            },
    {
        let supplier = match Self::find_by_id(store, id) {
            Result::Ok(s) => s,
            Result::Err(e) => {
                return Result::Err(e);
            },
        };
        let ghost ps0 = store.products@;
        let mut products: Vec<Product> = Vec::new();
        let mut k: usize = 0;
        while k < store.products.len()
            invariant
                k <= ps0.len(),
                store.products@ == ps0,
                products@ == products_of_supplier(ps0.take(k as int), id),
            decreases ps0.len() - k,
        {
            let matches_supplier = store.products[k].supplier_id == id;
            proof {
                reveal_with_fuel(Seq::filter, 2);
                assert(ps0.take(k + 1).drop_last() =~= ps0.take(k as int));
                assert(ps0.take(k + 1).last() == ps0[k as int]);
                if matches_supplier {
                    assert(products_of_supplier(ps0.take(k + 1), id) == products_of_supplier(
                        ps0.take(k as int),
                        id,
                    ).push(ps0[k as int]));
                } else {
                    assert(products_of_supplier(ps0.take(k + 1), id) == products_of_supplier(
                        ps0.take(k as int),
                        id,
                    ));
                }
            }
            if matches_supplier {
                products.push(store.products[k].duplicate());
            }
            k = k + 1;
        }
        proof {
            assert(ps0.take(ps0.len() as int) =~= ps0);
        }
        Result::Ok((supplier, products))
    }
}

} // verus!
