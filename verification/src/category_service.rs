//! Category catalog operations: plain single-table reads and writes with
//! no invariant beyond unique ids.

use vstd::prelude::*;

use crate::dtos::CategoryCreate;
use crate::dtos::CategoryUpdate;
use crate::error::AppError;
use crate::model::Category;
use crate::model::category_index;
use crate::model::has_category;
use crate::store::Store;

verus! {

/// A category row with an update request's present fields applied.
pub open spec fn patched_category(c: Category, dto: CategoryUpdate) -> Category {
    Category {
        category_id: c.category_id,
        name: match dto.name {
            Option::Some(n) => n,
            Option::None => c.name,
        },
        description: match dto.description {
            Option::Some(d) => Option::Some(d),
            Option::None => c.description,
        },
    }
}

pub struct CategoryService;

impl CategoryService {
    /// All category rows, in table order.
    pub fn find_all(store: &Store) -> (r: Vec<Category>)
        ensures
            r@ == store.categories@,
    {
        let mut out: Vec<Category> = Vec::new();
        let mut i: usize = 0;
        while i < store.categories.len()
            invariant
                i <= store.categories@.len(),
                out@ == store.categories@.take(i as int),
            decreases store.categories@.len() - i,
        {
            out.push(store.categories[i].duplicate());
            proof {
                assert(store.categories@.take(i + 1) =~= store.categories@.take(i as int).push(
                    store.categories@[i as int],
                ));
            }
            i = i + 1;
        }
        proof {
            assert(store.categories@.take(store.categories@.len() as int) =~= store.categories@);
        }
        out
    }

    /// The category row with this id, or `NotFound`.
    pub fn find_by_id(store: &Store, id: i32) -> (r: Result<Category, AppError>)
        requires
            store.wf(),
        ensures
            match r {
                Result::Ok(c) => has_category(store.categories@, id) && c
                    == store.categories@[category_index(store.categories@, id)],
                Result::Err(e) => e is NotFound && !has_category(store.categories@, id),
            },
    {
        match crate::store::find_category_index(&store.categories, id) {
            Option::Some(i) => {
                proof {
                    let cs = store.categories@;
                    assert(has_category(cs, id));
                    let j = category_index(cs, id);
                    assert(0 <= j < cs.len() && cs[j].category_id == id);
                    assert(j == i as int);
                }
                Result::Ok(store.categories[i].duplicate())
            },
            Option::None => Result::Err(AppError::NotFound),
        }
    }

    /// Inserts a category with a fresh id.
    pub fn create(store: &mut Store, dto: CategoryCreate) -> (r: Result<Category, AppError>)
        requires
            old(store).wf(),
        ensures
            final(store).wf(),
            match r {
                Result::Ok(c) => {
                    &&& old(store).next_category_id < i32::MAX
                    &&& c == (Category {
                        category_id: old(store).next_category_id,
                        name: dto.name,
                        description: dto.description,
                    })
                    &&& final(store).categories@ == old(store).categories@.push(c)
                    &&& final(store).next_category_id == old(store).next_category_id + 1
                    &&& *final(store) == (Store {
                        categories: final(store).categories,
                        next_category_id: final(store).next_category_id,
                        ..*old(store)
                    })
                },
                Result::Err(e) => {
                    &&& *final(store) == *old(store)
                    &&& old(store).next_category_id == i32::MAX
                    &&& e is Storage
                },
            },
    {
        if store.next_category_id == i32::MAX {
            return Result::Err(AppError::Storage);
        }
        let ghost pre = *store;
        let cid = store.next_category_id;
        let row = Category { category_id: cid, name: dto.name, description: dto.description };
        let result = row.duplicate();
        store.next_category_id = cid + 1;
        store.categories.push(row);
        proof {
            let post = *store;
            assert forall|i: int, j: int| 0 <= i < j < post.categories@.len() implies post.categories@[i].category_id
                != post.categories@[j].category_id by {
                if j < pre.categories@.len() {
                    assert(pre.categories@[i].category_id != pre.categories@[j].category_id);
                } else {
                    assert(pre.categories@[i].category_id < pre.next_category_id);
                }
            }
        }
        Result::Ok(result)
    }

    /// Applies an update request to a category: fields present in the
    /// patch are overwritten.
    pub fn update(store: &mut Store, id: i32, dto: CategoryUpdate) -> (r: Result<
        Category,
        AppError,
    >)
        requires
            old(store).wf(),
        ensures
            final(store).wf(),
            match r {
                Result::Ok(c) => {
                    &&& has_category(old(store).categories@, id)
                    &&& c == patched_category(
                        old(store).categories@[category_index(old(store).categories@, id)],
                        dto,
                    )
                    &&& final(store).categories@ == old(store).categories@.update(
                        category_index(old(store).categories@, id),
                        c,
                    )
                    &&& *final(store) == (Store { categories: final(store).categories, ..*old(store) })
                },
                Result::Err(e) => {
                    &&& *final(store) == *old(store)
                    &&& e is NotFound
                    &&& !has_category(old(store).categories@, id)
                },
            },
    {
        let i = match crate::store::find_category_index(&store.categories, id) {
            Option::Some(i) => i,
            Option::None => {
                return Result::Err(AppError::NotFound);
            },
        };
        proof {
            let cs = store.categories@;
            assert(has_category(cs, id));
            let j = category_index(cs, id);
            assert(0 <= j < cs.len() && cs[j].category_id == id);
            assert(j == i as int);
        }
        let ghost pre = *store;
        let mut row = store.categories[i].duplicate();
        if let Option::Some(n) = dto.name {
            row.name = n;
        }
        if let Option::Some(d) = dto.description {
            row.description = Option::Some(d);
        }
        let result = row.duplicate();
        store.categories[i] = row;
        proof {
            let post = *store;
            assert forall|a: int, b: int| 0 <= a < b < post.categories@.len() implies post.categories@[a].category_id
                != post.categories@[b].category_id by {
                assert(pre.categories@[a].category_id != pre.categories@[b].category_id);
                assert(post.categories@[a].category_id == pre.categories@[a].category_id);
                assert(post.categories@[b].category_id == pre.categories@[b].category_id);
            }
            assert forall|a: int|
                0 <= a < post.categories@.len() implies #[trigger] post.categories@[a].category_id
                < post.next_category_id by {
                assert(pre.categories@[a].category_id < pre.next_category_id);
            }
        }
        Result::Ok(result)
    }

    /// Deletes a category row.
    pub fn delete(store: &mut Store, id: i32) -> (r: Result<(), AppError>)
        requires
            old(store).wf(),
        ensures
            final(store).wf(),
            match r {
                Result::Ok(_) => {
                    &&& has_category(old(store).categories@, id)
                    &&& final(store).categories@ == old(store).categories@.remove(
                        category_index(old(store).categories@, id),
                    )
                    &&& *final(store) == (Store { categories: final(store).categories, ..*old(store) })
                },
                Result::Err(e) => {
                    &&& *final(store) == *old(store)
                    &&& e is NotFound
                    &&& !has_category(old(store).categories@, id)
                },
            },
    {
        let i = match crate::store::find_category_index(&store.categories, id) {
            Option::Some(i) => i,
            Option::None => {
                return Result::Err(AppError::NotFound);
            },
        };
        proof {
            let cs = store.categories@;
            assert(has_category(cs, id));
            let j = category_index(cs, id);
            assert(0 <= j < cs.len() && cs[j].category_id == id);
            assert(j == i as int);
        }
        let ghost pre = *store;
        store.categories.remove(i);
        proof {
            let post = *store;
            assert forall|a: int, b: int| 0 <= a < b < post.categories@.len() implies post.categories@[a].category_id
                != post.categories@[b].category_id by {
                if a < i as int {
                    if b < i as int {
                        assert(pre.categories@[a].category_id != pre.categories@[b].category_id);
                    } else {
                        assert(pre.categories@[a].category_id != pre.categories@[b
                            + 1].category_id);
                    }
                } else {
                    assert(pre.categories@[a + 1].category_id != pre.categories@[b
                        + 1].category_id);
                }
            }
            assert forall|a: int|
                0 <= a < post.categories@.len() implies #[trigger] post.categories@[a].category_id
                < post.next_category_id by {
                if a < i as int {
                    assert(pre.categories@[a].category_id < pre.next_category_id);
                } else {
                    assert(pre.categories@[a + 1].category_id < pre.next_category_id);
                }
            }
        }
        Result::Ok(())
    }
}

} // verus!
