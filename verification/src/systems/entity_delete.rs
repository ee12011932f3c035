//! Taking entities out of the world.

use vstd::prelude::*;
use crate::entity::{
    distinct_entities, find_row, first_row, has_row, lemma_first_row_found, lemma_no_row, Entity,
    Identified,
};
use crate::events::EntityDelete;

verus! {

/// The rows `rows` after the request `request`: without the first row of the
/// entity; where the entity has no row, as they were.
pub open spec fn rows_after_delete<T: Identified>(rows: Seq<T>, request: EntityDelete) -> Seq<T> {
    match first_row(rows, request.entity_id) {
        Some(index) => rows.remove(index),
        None => rows,
    }
}

/// The rows `rows` after the requests `requests`, one after the other.
pub open spec fn rows_after_deletes<T: Identified>(rows: Seq<T>, requests: Seq<EntityDelete>) -> Seq<
    T,
>
    decreases requests.len(),
{
    if requests.len() == 0 {
        rows
    } else {
        rows_after_delete(rows_after_deletes(rows, requests.drop_last()), requests.last())
    }
}

/// The number of those of `requests` that take a row out of `rows`, the
/// requests being served one after the other.
pub open spec fn effective_deletes<T: Identified>(rows: Seq<T>, requests: Seq<EntityDelete>) -> nat
    decreases requests.len(),
{
    if requests.len() == 0 {
        0
    } else {
        effective_deletes(rows, requests.drop_last()) + if first_row(
            rows_after_deletes(rows, requests.drop_last()),
            requests.last().entity_id,
        ) is Some {
            1nat
        } else {
            0nat
        }
    }
}

/// Serves the requests `entity_delete_ec` in their order: each takes the row
/// of its entity out of `rows`. A request for an entity that has no row, or
/// has none any more, does nothing. The number of rows taken out comes
/// back.
pub fn delete_entities<T: Identified>(entity_delete_ec: &Vec<EntityDelete>, rows: &mut Vec<T>) -> (deleted:
    usize)
    ensures
        final(rows)@ == rows_after_deletes(old(rows)@, entity_delete_ec@),
        deleted == effective_deletes(old(rows)@, entity_delete_ec@),
{
    let n = entity_delete_ec.len();
    let mut deleted: usize = 0;
    let mut k: usize = 0;
    proof {
        assert(entity_delete_ec@.take(0).len() == 0);
    }
    while k < n
        invariant
            k <= n,
            n == entity_delete_ec@.len(),
            deleted <= k,
            rows@ == rows_after_deletes(old(rows)@, entity_delete_ec@.take(k as int)),
            deleted == effective_deletes(old(rows)@, entity_delete_ec@.take(k as int)),
        decreases n - k,
    {
        let request = entity_delete_ec[k];
        proof {
            let done = entity_delete_ec@.take(k as int + 1);
            assert(done.last() == request);
            assert(done.drop_last() =~= entity_delete_ec@.take(k as int));
        }
        match find_row(rows, request.entity_id) {
            Some(index) => {
                let _ = rows.remove(index);
                deleted += 1;
            },
            None => {},
        }
        k += 1;
    }
    proof {
        assert(entity_delete_ec@.take(n as int) =~= entity_delete_ec@);
    }
    deleted
}

/// Among rows of different entities, a request leaves rows of different
/// entities, none of them of the entity that it names; and an entity
/// that had no row before has none after.
pub proof fn lemma_delete_removes<T: Identified>(rows: Seq<T>, request: EntityDelete)
    requires
        distinct_entities(rows),
    ensures
        distinct_entities(rows_after_delete(rows, request)),
        !has_row(rows_after_delete(rows, request), request.entity_id),
        forall|entity: Entity|
            !has_row(rows, entity) ==> !has_row(rows_after_delete(rows, request), entity),
{
    lemma_first_row_found(rows, request.entity_id);
    let after = rows_after_delete(rows, request);
    match first_row(rows, request.entity_id) {
        Some(index) => {
            rows.remove_ensures(index);
            assert forall|a: int, b: int| 0 <= a < b < after.len() implies (
            #[trigger] after[a]).owner() != (#[trigger] after[b]).owner() by {
                let from_a = if a < index { a } else { a + 1 };
                let from_b = if b < index { b } else { b + 1 };
                assert(after[a] == rows[from_a]);
                assert(after[b] == rows[from_b]);
                assert(rows[from_a].owner() != rows[from_b].owner());
            }
            assert forall|a: int| 0 <= a < after.len() implies (#[trigger] after[a]).owner()
                != request.entity_id by {
                let from_a = if a < index { a } else { a + 1 };
                assert(after[a] == rows[from_a]);
                if from_a < index {
                    assert(rows[from_a].owner() != rows[index].owner());
                } else {
                    assert(rows[index].owner() != rows[from_a].owner());
                }
            }
            assert forall|entity: Entity| !has_row(rows, entity) implies !has_row(
                after,
                entity,
            ) by {
                assert forall|a: int| 0 <= a < after.len() implies (#[trigger] after[a]).owner()
                    != entity by {
                    let from_a = if a < index { a } else { a + 1 };
                    assert(after[a] == rows[from_a]);
                    assert(rows[from_a].owner() != entity);
                }
            }
        },
        None => {},
    }
}

/// Serving requests keeps rows of different entities rows of different
/// entities, and brings no entity back.
pub proof fn lemma_deletes_remove<T: Identified>(rows: Seq<T>, requests: Seq<EntityDelete>)
    requires
        distinct_entities(rows),
    ensures
        distinct_entities(rows_after_deletes(rows, requests)),
        forall|entity: Entity|
            !has_row(rows, entity) ==> !has_row(rows_after_deletes(rows, requests), entity),
        forall|k: int|
            0 <= k < requests.len() ==> !has_row(
                rows_after_deletes(rows, requests),
                (#[trigger] requests[k]).entity_id,
            ),
    decreases requests.len(),
{
    if requests.len() > 0 {
        let earlier = requests.drop_last();
        lemma_deletes_remove(rows, earlier);
        let before = rows_after_deletes(rows, earlier);
        lemma_delete_removes(before, requests.last());
        assert forall|k: int| 0 <= k < requests.len() implies !has_row(
            rows_after_deletes(rows, requests),
            (#[trigger] requests[k]).entity_id,
        ) by {
            if k < earlier.len() {
                assert(earlier[k] == requests[k]);
                assert(!has_row(before, earlier[k].entity_id));
            }
        }
    }
}

/// Asking twice is asking once: among rows of different entities, a request
/// for an entity that an earlier request of the list has named takes no row
/// out.
pub proof fn lemma_repeated_delete_is_idle<T: Identified>(
    rows: Seq<T>,
    requests: Seq<EntityDelete>,
    j: int,
    k: int,
)
    requires
        distinct_entities(rows),
        0 <= j < k < requests.len(),
        requests[j].entity_id == requests[k].entity_id,
    ensures
        first_row(rows_after_deletes(rows, requests.take(k)), requests[k].entity_id) is None,
        rows_after_deletes(rows, requests.take(k + 1)) == rows_after_deletes(
            rows,
            requests.take(k),
        ),
        effective_deletes(rows, requests.take(k + 1)) == effective_deletes(
            rows,
            requests.take(k),
        ),
{
    let served = requests.take(k);
    assert(served[j] == requests[j]);
    lemma_deletes_remove(rows, served);
    lemma_no_row(rows_after_deletes(rows, served), requests[k].entity_id);
    let next = requests.take(k + 1);
    assert(next.drop_last() =~= served);
    assert(next.last() == requests[k]);
}

} // verus!
