//! Entity identifiers, and finding a row by the entity it belongs to.

use vstd::prelude::*;

verus! {

/// A stable identifier of a simulated entity. It carries no data of its own;
/// the stages find an entity's components by it.
#[derive(Copy, Clone, Debug, PartialEq, Eq, Structural, Hash)]
pub struct Entity(pub u64);

/// A row of a snapshot: the components of one entity that a stage reads or
/// writes, with the entity they belong to.
pub trait Identified {
    /// The entity of the row.
    spec fn owner(&self) -> Entity;

    /// The entity of the row.
    fn entity(&self) -> (entity: Entity)
        ensures
            entity == self.owner(),
    ;
}

impl Identified for Entity {
    open spec fn owner(&self) -> Entity {
        *self
    }

    fn entity(&self) -> (entity: Entity) {
        *self
    }
}

/// Whether the row at `index` is the first row of `rows` that belongs to
/// `entity`.
pub open spec fn is_first_of<T: Identified>(rows: Seq<T>, index: int, entity: Entity) -> bool {
    &&& 0 <= index < rows.len()
    &&& rows[index].owner() == entity
    &&& forall|j: int| 0 <= j < index ==> (#[trigger] rows[j]).owner() != entity
}

/// Whether a row of `rows` belongs to `entity`.
pub open spec fn has_row<T: Identified>(rows: Seq<T>, entity: Entity) -> bool {
    exists|i: int| 0 <= i < rows.len() && (#[trigger] rows[i]).owner() == entity
}

/// Whether no two rows of `rows` belong to the same entity.
pub open spec fn distinct_entities<T: Identified>(rows: Seq<T>) -> bool {
    forall|i: int, j: int|
        0 <= i < j < rows.len() ==> (#[trigger] rows[i]).owner() != (#[trigger] rows[j]).owner()
}

/// The place of the first row of `rows` that belongs to `entity`. The
/// stages work on that row and on no other of the same entity.
pub open spec fn first_row<T: Identified>(rows: Seq<T>, entity: Entity) -> Option<int> {
    if exists|i: int| is_first_of(rows, i, entity) {
        Some(choose|i: int| is_first_of(rows, i, entity))
    } else {
        None
    }
}

/// The first row of an entity is found at its place, and at no other.
pub proof fn lemma_first_row_is<T: Identified>(rows: Seq<T>, index: int, entity: Entity)
    requires
        is_first_of(rows, index, entity),
    ensures
        first_row(rows, entity) == Some(index),
{
    let chosen = choose|i: int| is_first_of(rows, i, entity);
    assert(is_first_of(rows, chosen, entity));
    if chosen < index {
        assert(rows[chosen].owner() != entity);
    } else if index < chosen {
        assert(rows[index].owner() != entity);
    }
}

/// An entity without a row has no first row.
pub proof fn lemma_no_row<T: Identified>(rows: Seq<T>, entity: Entity)
    requires
        !has_row(rows, entity),
    ensures
        first_row(rows, entity) is None,
{
    if exists|i: int| is_first_of(rows, i, entity) {
        let chosen = choose|i: int| is_first_of(rows, i, entity);
        assert(rows[chosen].owner() == entity);
    }
}

/// Whatever `first_row` finds is the first row of the entity, and it finds
/// one wherever the entity has a row.
pub proof fn lemma_first_row_found<T: Identified>(rows: Seq<T>, entity: Entity)
    ensures
        match first_row(rows, entity) {
            Some(index) => is_first_of(rows, index, entity),
            None => !has_row(rows, entity),
        },
{
    if first_row(rows, entity) is None && has_row(rows, entity) {
        let some = choose|i: int| 0 <= i < rows.len() && (#[trigger] rows[i]).owner() == entity;
        lemma_least_row(rows, some, entity);
    }
}

/// Where two lists of rows belong to the same entities, place by place, an
/// entity has its first row at the same place in both.
pub proof fn lemma_first_row_by_owner<T: Identified>(rows: Seq<T>, others: Seq<T>, entity: Entity)
    requires
        rows.len() == others.len(),
        forall|i: int| 0 <= i < rows.len() ==> (#[trigger] rows[i]).owner() == others[i].owner(),
    ensures
        first_row(rows, entity) == first_row(others, entity),
{
    lemma_first_row_found(rows, entity);
    match first_row(rows, entity) {
        Some(index) => {
            assert forall|j: int| 0 <= j < index implies (#[trigger] others[j]).owner()
                != entity by {
                assert(rows[j].owner() != entity);
            }
            lemma_first_row_is(others, index, entity);
        },
        None => {
            assert forall|i: int| 0 <= i < others.len() implies (#[trigger] others[i]).owner()
                != entity by {
                assert(rows[i].owner() == others[i].owner());
            }
            lemma_no_row(others, entity);
        },
    }
}

proof fn lemma_least_row<T: Identified>(rows: Seq<T>, index: int, entity: Entity)
    requires
        0 <= index < rows.len(),
        rows[index].owner() == entity,
    ensures
        exists|i: int| is_first_of(rows, i, entity),
    decreases index,
{
    if exists|j: int| 0 <= j < index && (#[trigger] rows[j]).owner() == entity {
        let earlier = choose|j: int| 0 <= j < index && (#[trigger] rows[j]).owner() == entity;
        lemma_least_row(rows, earlier, entity);
    } else {
        assert(is_first_of(rows, index, entity));
    }
}

/// The place of the first row of `rows` that belongs to `entity`.
pub fn find_row<T: Identified>(rows: &Vec<T>, entity: Entity) -> (found: Option<usize>)
    ensures
        match found {
            Some(index) => first_row(rows@, entity) == Some(index as int) && index < rows@.len(),
            None => first_row(rows@, entity) is None,
        },
{
    let n = rows.len();
    let mut i: usize = 0;
    while i < n
        invariant
            i <= n,
            n == rows@.len(),
            forall|j: int| 0 <= j < i ==> (#[trigger] rows@[j]).owner() != entity,
        decreases n - i,
    {
        if rows[i].entity() == entity {
            proof {
                lemma_first_row_is(rows@, i as int, entity);
            }
            return Some(i);
        }
        i += 1;
    }
    proof {
        lemma_no_row(rows@, entity);
    }
    None
}

} // verus!
