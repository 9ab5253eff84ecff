//! Customer catalog operations: plain single-table reads and writes with
//! no invariant beyond unique ids, plus the read that joins a customer to
//! its orders. A new customer's registration date is stamped with the
//! wall-clock time, as order creation stamps its order date.

use vstd::prelude::*;

use crate::dtos::CustomerCreate;
use crate::dtos::CustomerUpdate;
use crate::error::AppError;
use crate::model::Customer;
use crate::model::Order;
use crate::model::customer_index;
use crate::model::has_customer;
use crate::model::orders_of_customer;
use crate::store::Store;

verus! {

/// A customer row with an update request's present fields applied.
pub open spec fn patched_customer(c: Customer, dto: CustomerUpdate) -> Customer {
    Customer {
        customer_id: c.customer_id,
        first_name: match dto.first_name {
            Option::Some(n) => n,
            Option::None => c.first_name,
        },
        last_name: match dto.last_name {
            Option::Some(n) => n,
            Option::None => c.last_name,
        },
        email: match dto.email {
            Option::Some(e) => e,
            Option::None => c.email,
        },
        phone: match dto.phone {
            Option::Some(p) => Option::Some(p),
            Option::None => c.phone,
        },
        registration_date: c.registration_date,
        address: match dto.address {
            Option::Some(a) => Option::Some(a),
            Option::None => c.address,
        },
    }
}

/// Full relation between the store before and after a customer-creation
/// request stamped with `registration_date`, and the result handed back.
pub open spec fn customer_create_post(
    pre: Store,
    dto: CustomerCreate,
    registration_date: i64,
    post: Store,
    r: Result<Customer, AppError>,
) -> bool {
    match r {
        Result::Ok(c) => {
            &&& pre.next_customer_id < i32::MAX
            &&& c == (Customer {
                customer_id: pre.next_customer_id,
                first_name: dto.first_name,
                last_name: dto.last_name,
                email: dto.email,
                phone: dto.phone,
                registration_date,
                address: dto.address,
            })
            &&& post.customers@ == pre.customers@.push(c)
            &&& post.next_customer_id == pre.next_customer_id + 1
            &&& post == (Store {
                customers: post.customers,
                next_customer_id: post.next_customer_id,
                ..pre
            })
        },
        Result::Err(e) => {
            &&& post == pre
            &&& pre.next_customer_id == i32::MAX
            &&& e is Storage
        },
    }
}

pub struct CustomerService;

impl CustomerService {
    /// All customer rows, in table order.
    pub fn find_all(store: &Store) -> (r: Vec<Customer>)
        ensures
            r@ == store.customers@,
    {
        let mut out: Vec<Customer> = Vec::new();
        let mut i: usize = 0;
        while i < store.customers.len()
            invariant
                i <= store.customers@.len(),
                out@ == store.customers@.take(i as int),
            decreases store.customers@.len() - i,
        {
            out.push(store.customers[i].duplicate());
            proof {
                assert(store.customers@.take(i + 1) =~= store.customers@.take(i as int).push(
                    store.customers@[i as int],
                ));
            }
            i = i + 1;
        }
        proof {
            assert(store.customers@.take(store.customers@.len() as int) =~= store.customers@);
        }
        out
    }

    /// The customer row with this id, or `NotFound`.
    pub fn find_by_id(store: &Store, id: i32) -> (r: Result<Customer, AppError>)
        requires
            store.wf(),
        ensures
            match r {
                Result::Ok(c) => has_customer(store.customers@, id) && c
                    == store.customers@[customer_index(store.customers@, id)],
                Result::Err(e) => e is NotFound && !has_customer(store.customers@, id),
            },
    {
        match crate::store::find_customer_index(&store.customers, id) {
            Option::Some(i) => {
                proof {
                    let cs = store.customers@;
                    assert(has_customer(cs, id));
                    let j = customer_index(cs, id);
                    assert(0 <= j < cs.len() && cs[j].customer_id == id);
                    assert(j == i as int);
                }
                Result::Ok(store.customers[i].duplicate())
            },
            Option::None => Result::Err(AppError::NotFound),
        }
    }

    /// Inserts a customer registered at the current wall-clock time. The
    /// stored state and result are exactly those of `create_at` for some
    /// timestamp.
    pub fn create(store: &mut Store, dto: CustomerCreate) -> (r: Result<Customer, AppError>)
        requires
            old(store).wf(),
        ensures
            final(store).wf(),
            exists|d: i64| customer_create_post(*old(store), dto, d, *final(store), r),
    {
        let stamp = crate::clock::now_timestamp();
        Self::create_at(store, dto, stamp)
    }

    /// Inserts a customer with a fresh id, registered at
    /// `registration_date`.
    pub fn create_at(store: &mut Store, dto: CustomerCreate, registration_date: i64) -> (r: Result<
        Customer,
        AppError,
    >)
        requires
            old(store).wf(),
        ensures
            final(store).wf(),
            customer_create_post(*old(store), dto, registration_date, *final(store), r),
    {
        if store.next_customer_id == i32::MAX {
            return Result::Err(AppError::Storage);
        }
        let ghost pre = *store;
        let cid = store.next_customer_id;
        let row = Customer {
            customer_id: cid,
            first_name: dto.first_name,
            last_name: dto.last_name,
            email: dto.email,
            phone: dto.phone,
            registration_date,
            address: dto.address,
        };
        let result = row.duplicate();
        store.next_customer_id = cid + 1;
        store.customers.push(row);
        proof {
            let post = *store;
            assert forall|i: int, j: int| 0 <= i < j < post.customers@.len() implies post.customers@[i].customer_id
                != post.customers@[j].customer_id by {
                if j < pre.customers@.len() {
                    assert(pre.customers@[i].customer_id != pre.customers@[j].customer_id);
                } else {
                    assert(pre.customers@[i].customer_id < pre.next_customer_id);
                }
            }
        }
        Result::Ok(result)
    }

    /// Applies an update request to a customer: fields present in the
    /// patch are overwritten. The registration date is set once at
    /// creation and never patched.
    pub fn update(store: &mut Store, id: i32, dto: CustomerUpdate) -> (r: Result<
        Customer,
        AppError,
    >)
        requires
            old(store).wf(),
        ensures
            final(store).wf(),
            match r {
                Result::Ok(c) => {
                    &&& has_customer(old(store).customers@, id)
                    &&& c == patched_customer(
                        old(store).customers@[customer_index(old(store).customers@, id)],
                        dto,
                    )
                    &&& final(store).customers@ == old(store).customers@.update(
                        customer_index(old(store).customers@, id),
                        c,
                    )
                    &&& *final(store) == (Store { customers: final(store).customers, ..*old(store) })
                },
                Result::Err(e) => {
                    &&& *final(store) == *old(store)
                    &&& e is NotFound
                    &&& !has_customer(old(store).customers@, id)
                },
            },
    {
        let i = match crate::store::find_customer_index(&store.customers, id) {
            Option::Some(i) => i,
            Option::None => {
                return Result::Err(AppError::NotFound);
            },
        };
        proof {
            let cs = store.customers@;
            assert(has_customer(cs, id));
            let j = customer_index(cs, id);
            assert(0 <= j < cs.len() && cs[j].customer_id == id);
            assert(j == i as int);
        }
        let ghost pre = *store;
        let mut row = store.customers[i].duplicate();
        let CustomerUpdate { first_name, last_name, email, phone, address } = dto;
        if let Option::Some(n) = first_name {
            row.first_name = n;
        }
        if let Option::Some(n) = last_name {
            row.last_name = n;
        }
        if let Option::Some(e) = email {
            row.email = e;
        }
        if let Option::Some(p) = phone {
            row.phone = Option::Some(p);
        }
        if let Option::Some(a) = address {
            row.address = Option::Some(a);
        }
        let result = row.duplicate();
        store.customers[i] = row;
        proof {
            let post = *store;
            assert forall|a: int, b: int| 0 <= a < b < post.customers@.len() implies post.customers@[a].customer_id
                != post.customers@[b].customer_id by {
                assert(pre.customers@[a].customer_id != pre.customers@[b].customer_id);
                assert(post.customers@[a].customer_id == pre.customers@[a].customer_id);
                assert(post.customers@[b].customer_id == pre.customers@[b].customer_id);
            }
            assert forall|a: int|
                0 <= a < post.customers@.len() implies #[trigger] post.customers@[a].customer_id
                < post.next_customer_id by {
                assert(pre.customers@[a].customer_id < pre.next_customer_id);
            }
        }
        Result::Ok(result)
    }

    /// Deletes a customer row.
    pub fn delete(store: &mut Store, id: i32) -> (r: Result<(), AppError>)
        requires
            old(store).wf(),
        ensures
            final(store).wf(),
            match r {
                Result::Ok(_) => {
                    &&& has_customer(old(store).customers@, id)
                    &&& final(store).customers@ == old(store).customers@.remove(
                        customer_index(old(store).customers@, id),
                    )
                    &&& *final(store) == (Store { customers: final(store).customers, ..*old(store) })
                },
                Result::Err(e) => {
                    &&& *final(store) == *old(store)
                    &&& e is NotFound
                    &&& !has_customer(old(store).customers@, id)
                },
            },
    {
        let i = match crate::store::find_customer_index(&store.customers, id) {
            Option::Some(i) => i,
            Option::None => {
                return Result::Err(AppError::NotFound);
            },
        };
        proof {
            let cs = store.customers@;
            assert(has_customer(cs, id));
            let j = customer_index(cs, id);
            assert(0 <= j < cs.len() && cs[j].customer_id == id);
            assert(j == i as int);
        }
        let ghost pre = *store;
        store.customers.remove(i);
        proof {
            let post = *store;
            assert forall|a: int, b: int| 0 <= a < b < post.customers@.len() implies post.customers@[a].customer_id
                != post.customers@[b].customer_id by {
                if a < i as int {
                    if b < i as int {
                        assert(pre.customers@[a].customer_id != pre.customers@[b].customer_id);
                    } else {
                        assert(pre.customers@[a].customer_id != pre.customers@[b
                            + 1].customer_id);
                    }
                } else {
                    assert(pre.customers@[a + 1].customer_id != pre.customers@[b
                        + 1].customer_id);
                }
            }
            assert forall|a: int|
                0 <= a < post.customers@.len() implies #[trigger] post.customers@[a].customer_id
                < post.next_customer_id by {
                if a < i as int {
                    assert(pre.customers@[a].customer_id < pre.next_customer_id);
                } else {
                    assert(pre.customers@[a + 1].customer_id < pre.next_customer_id);
                }
            }
        }
        Result::Ok(())
    }

    /// The customer row with this id together with the order headers that
    /// belong to it, in table order.
    #[verifier::loop_isolation(false)]
    pub fn find_with_orders(store: &Store, id: i32) -> (r: Result<
        (Customer, Vec<Order>),
        AppError,
    >)
        requires
            store.wf(),
        ensures
            match r {
                Result::Ok(p) => {
                    &&& has_customer(store.customers@, id)
                    &&& p.0 == store.customers@[customer_index(store.customers@, id)]
                    &&& p.1@ == orders_of_customer(store.orders@, id)
                },
                Result::Err(e) => e is NotFound && !has_customer(store.customers@, id),
            },
    {
        let customer = match Self::find_by_id(store, id) {
            Result::Ok(c) => c,
            Result::Err(e) => {
                return Result::Err(e);
            },
        };
        let ghost os0 = store.orders@;
        let mut orders: Vec<Order> = Vec::new();
        let mut k: usize = 0;
        while k < store.orders.len()
            invariant
                k <= os0.len(),
                store.orders@ == os0,
                orders@ == orders_of_customer(os0.take(k as int), id),
            decreases os0.len() - k,
        {
            let belongs = store.orders[k].customer_id == id;
            proof {
                reveal_with_fuel(Seq::filter, 2);
                assert(os0.take(k + 1).drop_last() =~= os0.take(k as int));
                assert(os0.take(k + 1).last() == os0[k as int]);
                if belongs {
                    assert(orders_of_customer(os0.take(k + 1), id) == orders_of_customer(
                        os0.take(k as int),
                        id,
                    ).push(os0[k as int]));
                } else {
                    assert(orders_of_customer(os0.take(k + 1), id) == orders_of_customer(
                        os0.take(k as int),
                        id,
                    ));
                }
            }
            if belongs {
                orders.push(store.orders[k].duplicate());
            }
            k = k + 1;
        }
        proof {
            assert(os0.take(os0.len() as int) =~= os0);
        }
        Result::Ok((customer, orders))
    }
}

} // verus!
