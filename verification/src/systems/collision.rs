//! Collisions: finding them, pushing movers back out of obstacles, and
//! turning projectile hits into damage.

use vstd::prelude::*;
use crate::collision::{
    body_collision, check_body_collision, check_projectile_collision, is_push, is_within_reach,
    projectile_collision, within_reach, Collider, Collision, Collisions, ProjectileCollision,
    ProjectileCollisions,
};
use crate::components::Damage;
use crate::collision::{lemma_overlap_pushes, overlap};
use crate::entity::{
    distinct_entities, find_row, first_row, has_row, is_first_of, lemma_first_row_by_owner,
    lemma_first_row_found, lemma_first_row_is, Entity, Identified,
};
use crate::events::{DamageEvent, EntityDelete};
use crate::geometry::{Vec2, MAX_REACH, WORLD_LIMIT};
use crate::systems::health::Vitals;

verus! {

/// An entity with a bound, as the collision stages see it.
#[derive(Copy, Clone, Debug, PartialEq, Eq, Structural)]
pub struct Body {
    pub entity: Entity,
    pub collider: Collider,
}

/// An entity in its place.
#[derive(Copy, Clone, Debug, PartialEq, Eq, Structural)]
pub struct Placement {
    pub entity: Entity,
    pub position: Vec2,
}

/// A projectile and the damage it carries.
#[derive(Copy, Clone, Debug, PartialEq, Eq, Structural)]
pub struct Warhead {
    pub entity: Entity,
    pub damage: Damage,
}

impl Identified for Body {
    open spec fn owner(&self) -> Entity {
        self.entity
    }

    fn entity(&self) -> (entity: Entity) {
        self.entity
    }
}

impl Identified for Placement {
    open spec fn owner(&self) -> Entity {
        self.entity
    }

    fn entity(&self) -> (entity: Entity) {
        self.entity
    }
}

impl Identified for Warhead {
    open spec fn owner(&self) -> Entity {
        self.entity
    }

    fn entity(&self) -> (entity: Entity) {
        self.entity
    }
}

/// The collision of the mover `mover` with `other`: one where the two are
/// different entities whose bounds overlap, else none.
pub open spec fn collision_between(mover: Body, other: Body) -> Seq<Collision> {
    if mover.entity == other.entity {
        Seq::empty()
    } else {
        match body_collision(mover.collider, other.collider) {
            Some(vector) => seq![
                Collision { collider: mover.entity, collidee: other.entity, vector },
            ],
            None => Seq::empty(),
        }
    }
}

/// The collisions of the mover `mover` with the bodies `others`, in their
/// order.
pub open spec fn collisions_of(mover: Body, others: Seq<Body>) -> Seq<Collision>
    decreases others.len(),
{
    if others.len() == 0 {
        Seq::empty()
    } else {
        collisions_of(mover, others.drop_last()) + collision_between(mover, others.last())
    }
}

/// The collisions of the movers `movers` with the bodies `others`: mover by
/// mover, and for each mover body by body.
pub open spec fn all_collisions(movers: Seq<Body>, others: Seq<Body>) -> Seq<Collision>
    decreases movers.len(),
{
    if movers.len() == 0 {
        Seq::empty()
    } else {
        all_collisions(movers.drop_last(), others) + collisions_of(movers.last(), others)
    }
}

/// Finds the collisions of the tick: every mover is held against every body
/// but itself. What `collision_res` held before is thrown away.
pub fn collect_collisions(
    moving: &Vec<Body>,
    standing: &Vec<Body>,
    collision_res: &mut Collisions,
)
    ensures
        final(collision_res).0@ == all_collisions(moving@, standing@),
        forall|k: int|
            0 <= k < final(collision_res).0@.len() ==> is_push(
                (#[trigger] final(collision_res).0@[k]).vector,
            ),
{
    collision_res.0.clear();
    let movers = moving.len();
    let others = standing.len();
    let mut i: usize = 0;
    proof {
        assert(moving@.take(0).len() == 0);
    }
    while i < movers
        invariant
            i <= movers,
            movers == moving@.len(),
            others == standing@.len(),
            collision_res.0@ == all_collisions(moving@.take(i as int), standing@),
            forall|k: int|
                0 <= k < collision_res.0@.len() ==> is_push(
                    (#[trigger] collision_res.0@[k]).vector,
                ),
        decreases movers - i,
    {
        let mover = moving[i];
        let ghost earlier = collision_res.0@;
        let mut j: usize = 0;
        proof {
            assert(standing@.take(0).len() == 0);
            assert(earlier + Seq::<Collision>::empty() =~= earlier);
        }
        while j < others
            invariant
                j <= others,
                others == standing@.len(),
                collision_res.0@ == earlier + collisions_of(mover, standing@.take(j as int)),
                forall|k: int|
                    0 <= k < collision_res.0@.len() ==> is_push(
                        (#[trigger] collision_res.0@[k]).vector,
                    ),
            decreases others - j,
        {
            let other = standing[j];
            let ghost found = collision_res.0@;
            proof {
                let seen = standing@.take(j as int + 1);
                assert(seen.last() == other);
                assert(seen.drop_last() =~= standing@.take(j as int));
                assert(found + Seq::<Collision>::empty() =~= found);
            }
            if mover.entity != other.entity {
                match check_body_collision(mover.collider, other.collider) {
                    Some(vector) => {
                        let collision = Collision {
                            collider: mover.entity,
                            collidee: other.entity,
                            vector,
                        };
                        collision_res.0.push(collision);
                        proof {
                            assert(collision_res.0@ =~= found + seq![collision]);
                        }
                    },
                    None => {},
                }
            }
            proof {
                let seen = standing@.take(j as int + 1);
                assert(collision_res.0@ =~= earlier + collisions_of(mover, seen));
            }
            j += 1;
        }
        proof {
            assert(standing@.take(others as int) =~= standing@);
            let done = moving@.take(i as int + 1);
            assert(done.last() == mover);
            assert(done.drop_last() =~= moving@.take(i as int));
        }
        i += 1;
    }
    proof {
        assert(moving@.take(movers as int) =~= moving@);
    }
}

/// The hit of the projectile `projectile` on `target`: one where the
/// projectile lies inside the target's bound, else none.
pub open spec fn hit_between(projectile: Placement, target: Body) -> Seq<ProjectileCollision> {
    match projectile_collision(projectile.position, target.collider) {
        Some(vector) => seq![
            ProjectileCollision { projectile: projectile.entity, target: target.entity, vector },
        ],
        None => Seq::empty(),
    }
}

/// The hits of the projectile `projectile` on the bodies `targets`, in their
/// order.
pub open spec fn hits_of(projectile: Placement, targets: Seq<Body>) -> Seq<ProjectileCollision>
    decreases targets.len(),
{
    if targets.len() == 0 {
        Seq::empty()
    } else {
        hits_of(projectile, targets.drop_last()) + hit_between(projectile, targets.last())
    }
}

/// The hits of the projectiles `projectiles` on the bodies `targets`:
/// projectile by projectile, and for each projectile target by target.
pub open spec fn all_hits(projectiles: Seq<Placement>, targets: Seq<Body>) -> Seq<
    ProjectileCollision,
>
    decreases projectiles.len(),
{
    if projectiles.len() == 0 {
        Seq::empty()
    } else {
        all_hits(projectiles.drop_last(), targets) + hits_of(projectiles.last(), targets)
    }
}

/// Finds the projectile hits of the tick: every projectile is held against
/// every body that is no projectile, and every hit is kept. What
/// `collision_res` held before is thrown away.
pub fn collect_projectile_collisions(
    collision_res: &mut ProjectileCollisions,
    projectiles: &Vec<Placement>,
    maybe_collidees: &Vec<Body>,
)
    ensures
        final(collision_res).0@ == all_hits(projectiles@, maybe_collidees@),
        forall|k: int|
            0 <= k < final(collision_res).0@.len() ==> is_push(
                (#[trigger] final(collision_res).0@[k]).vector,
            ),
{
    collision_res.0.clear();
    let shots = projectiles.len();
    let others = maybe_collidees.len();
    let mut i: usize = 0;
    proof {
        assert(projectiles@.take(0).len() == 0);
    }
    while i < shots
        invariant
            i <= shots,
            shots == projectiles@.len(),
            others == maybe_collidees@.len(),
            collision_res.0@ == all_hits(projectiles@.take(i as int), maybe_collidees@),
            forall|k: int|
                0 <= k < collision_res.0@.len() ==> is_push(
                    (#[trigger] collision_res.0@[k]).vector,
                ),
        decreases shots - i,
    {
        let projectile = projectiles[i];
        let ghost earlier = collision_res.0@;
        let mut j: usize = 0;
        proof {
            assert(maybe_collidees@.take(0).len() == 0);
            assert(earlier + Seq::<ProjectileCollision>::empty() =~= earlier);
        }
        while j < others
            invariant
                j <= others,
                others == maybe_collidees@.len(),
                collision_res.0@ == earlier + hits_of(projectile, maybe_collidees@.take(j as int)),
                forall|k: int|
                    0 <= k < collision_res.0@.len() ==> is_push(
                        (#[trigger] collision_res.0@[k]).vector,
                    ),
            decreases others - j,
        {
            let target = maybe_collidees[j];
            let ghost found = collision_res.0@;
            proof {
                let seen = maybe_collidees@.take(j as int + 1);
                assert(seen.last() == target);
                assert(seen.drop_last() =~= maybe_collidees@.take(j as int));
                assert(found + Seq::<ProjectileCollision>::empty() =~= found);
            }
            match check_projectile_collision(&projectile.position, target.collider) {
                Some(vector) => {
                    let collision = ProjectileCollision {
                        projectile: projectile.entity,
                        target: target.entity,
                        vector,
                    };
                    collision_res.0.push(collision);
                    proof {
                        assert(collision_res.0@ =~= found + seq![collision]);
                    }
                },
                None => {},
            }
            proof {
                let seen = maybe_collidees@.take(j as int + 1);
                assert(collision_res.0@ =~= earlier + hits_of(projectile, seen));
            }
            j += 1;
        }
        proof {
            assert(maybe_collidees@.take(others as int) =~= maybe_collidees@);
            let done = projectiles@.take(i as int + 1);
            assert(done.last() == projectile);
            assert(done.drop_last() =~= projectiles@.take(i as int));
        }
        i += 1;
    }
    proof {
        assert(projectiles@.take(shots as int) =~= projectiles@);
    }
}

/// The damage that the hit `collision` deals: that of the projectile's first
/// row in `damages`, on the target, where the target has a row in `healths`
/// and the projectile one in `damages`; else none.
pub open spec fn damage_of_hit(
    collision: ProjectileCollision,
    healths: Seq<Vitals>,
    damages: Seq<Warhead>,
) -> Seq<DamageEvent> {
    if first_row(healths, collision.target) is Some {
        match first_row(damages, collision.projectile) {
            Some(index) => seq![
                DamageEvent { damage: damages[index].damage, target: collision.target },
            ],
            None => Seq::empty(),
        }
    } else {
        Seq::empty()
    }
}

/// The damage that the hits `collisions` deal, hit by hit.
pub open spec fn damage_of_hits(
    collisions: Seq<ProjectileCollision>,
    healths: Seq<Vitals>,
    damages: Seq<Warhead>,
) -> Seq<DamageEvent>
    decreases collisions.len(),
{
    if collisions.len() == 0 {
        Seq::empty()
    } else {
        damage_of_hits(collisions.drop_last(), healths, damages) + damage_of_hit(
            collisions.last(),
            healths,
            damages,
        )
    }
}

/// The projectiles of the hits `collisions`, each asked to leave the world:
/// one request for every hit, whether or not it deals damage.
pub open spec fn deletions_of(collisions: Seq<ProjectileCollision>) -> Seq<EntityDelete> {
    Seq::new(collisions.len(), |k: int| EntityDelete { entity_id: collisions[k].projectile })
}

/// Turns the projectile hits of the tick into damage and has every
/// projectile that hit something leave the world. The requests and the
/// damage are added to what `entity_delete_ec` and `damage_ec` hold.
pub fn handle_projectile_collisions(
    collision_res: &ProjectileCollisions,
    entity_delete_ec: &mut Vec<EntityDelete>,
    damage_ec: &mut Vec<DamageEvent>,
    healths: &Vec<Vitals>,
    damages: &Vec<Warhead>,
)
    ensures
        final(damage_ec)@ == old(damage_ec)@ + damage_of_hits(
            collision_res.0@,
            healths@,
            damages@,
        ),
        final(entity_delete_ec)@ == old(entity_delete_ec)@ + deletions_of(collision_res.0@),
{
    let n = collision_res.0.len();
    let mut k: usize = 0;
    proof {
        assert(collision_res.0@.take(0).len() == 0);
        assert(damage_ec@ + Seq::<DamageEvent>::empty() =~= damage_ec@);
        assert(entity_delete_ec@ + deletions_of(collision_res.0@).take(0) =~= entity_delete_ec@);
    }
    while k < n
        invariant
            k <= n,
            n == collision_res.0@.len(),
            damage_ec@ == old(damage_ec)@ + damage_of_hits(
                collision_res.0@.take(k as int),
                healths@,
                damages@,
            ),
            entity_delete_ec@ == old(entity_delete_ec)@ + deletions_of(collision_res.0@).take(
                k as int,
            ),
        decreases n - k,
    {
        let collision = collision_res.0[k];
        let ghost dealt = damage_ec@;
        let ghost asked = entity_delete_ec@;
        proof {
            let done = collision_res.0@.take(k as int + 1);
            assert(done.last() == collision);
            assert(done.drop_last() =~= collision_res.0@.take(k as int));
            assert(dealt + Seq::<DamageEvent>::empty() =~= dealt);
        }
        if find_row(healths, collision.target).is_some() {
            match find_row(damages, collision.projectile) {
                Some(index) => {
                    let event = DamageEvent {
                        damage: damages[index].damage,
                        target: collision.target,
                    };
                    damage_ec.push(event);
                    proof {
                        assert(damage_ec@ =~= dealt + seq![event]);
                    }
                },
                None => {},
            }
        }
        entity_delete_ec.push(EntityDelete { entity_id: collision.projectile });
        proof {
            let all = deletions_of(collision_res.0@);
            assert(all.take(k as int + 1) =~= all.take(k as int).push(all[k as int]));
            assert(damage_ec@ =~= old(damage_ec)@ + damage_of_hits(
                collision_res.0@.take(k as int + 1),
                healths@,
                damages@,
            ));
        }
        k += 1;
    }
    proof {
        assert(collision_res.0@.take(n as int) =~= collision_res.0@);
        assert(deletions_of(collision_res.0@).take(n as int) =~= deletions_of(collision_res.0@));
    }
}

/// The most collisions that one tick can resolve: with so many, no place
/// within the world is pushed beyond what a coordinate can hold.
pub const MAX_COLLISIONS: usize = 1_000_000_000;

/// The row `placement`, moved back by `vector`.
pub open spec fn pushed_back(placement: Placement, vector: Vec2) -> Placement {
    Placement {
        entity: placement.entity,
        position: Vec2 {
            x: (placement.position.x - vector.x) as i64,
            y: (placement.position.y - vector.y) as i64,
        },
    }
}

/// The rows `rows` after the collision `collision` is resolved: the first
/// row of the mover is moved back by the collision's vector; without such a
/// row nothing changes.
pub open spec fn placements_after_collision(rows: Seq<Placement>, collision: Collision) -> Seq<
    Placement,
> {
    match first_row(rows, collision.collider) {
        Some(index) => rows.update(index, pushed_back(rows[index], collision.vector)),
        None => rows,
    }
}

/// The rows `rows` after the collisions `collisions` are resolved, one after
/// the other.
pub open spec fn placements_after(rows: Seq<Placement>, collisions: Seq<Collision>) -> Seq<
    Placement,
>
    decreases collisions.len(),
{
    if collisions.len() == 0 {
        rows
    } else {
        placements_after_collision(
            placements_after(rows, collisions.drop_last()),
            collisions.last(),
        )
    }
}

/// What the obstacle stage asks: so few collisions, with vectors so short,
/// on places so far within the world, that every place it moves can be
/// written down.
pub open spec fn resolvable(rows: Seq<Placement>, collisions: Seq<Collision>) -> bool {
    &&& collisions.len() <= MAX_COLLISIONS
    &&& forall|k: int| 0 <= k < collisions.len() ==> within_reach((#[trigger] collisions[k]).vector)
    &&& forall|i: int| 0 <= i < rows.len() ==> (#[trigger] rows[i]).position.in_world()
}

/// Whether the obstacle stage can resolve `collision_res` on `transforms`.
pub fn can_resolve(collision_res: &Collisions, transforms: &Vec<Placement>) -> (can: bool)
    ensures
        can == resolvable(transforms@, collision_res.0@),
{
    if collision_res.0.len() > MAX_COLLISIONS {
        return false;
    }
    let n = collision_res.0.len();
    let mut k: usize = 0;
    while k < n
        invariant
            k <= n,
            n == collision_res.0@.len(),
            forall|j: int| 0 <= j < k ==> within_reach((#[trigger] collision_res.0@[j]).vector),
        decreases n - k,
    {
        if !is_within_reach(&collision_res.0[k].vector) {
            return false;
        }
        k += 1;
    }
    let rows = transforms.len();
    let mut i: usize = 0;
    while i < rows
        invariant
            i <= rows,
            rows == transforms@.len(),
            forall|j: int| 0 <= j < i ==> (#[trigger] transforms@[j]).position.in_world(),
        decreases rows - i,
    {
        if !transforms[i].position.is_in_world() {
            return false;
        }
        i += 1;
    }
    true
}

/// Pushes every mover back out of what it ran into: each collision's vector
/// is taken off the mover's position, one collision after the other, in the
/// order of the list. A mover without a row is passed over.
pub fn handle_obstacle_collisions(collision_res: &Collisions, transforms: &mut Vec<Placement>)
    requires
        resolvable(old(transforms)@, collision_res.0@),
    ensures
        final(transforms)@ == placements_after(old(transforms)@, collision_res.0@),
{
    let n = collision_res.0.len();
    let mut k: usize = 0;
    proof {
        assert(collision_res.0@.take(0).len() == 0);
    }
    while k < n
        invariant
            k <= n,
            n == collision_res.0@.len(),
            n <= MAX_COLLISIONS,
            forall|j: int|
                0 <= j < n ==> within_reach((#[trigger] collision_res.0@[j]).vector),
            transforms@ == placements_after(old(transforms)@, collision_res.0@.take(k as int)),
            forall|i: int|
                0 <= i < transforms@.len() ==> {
                    &&& -WORLD_LIMIT - k * MAX_REACH <= (#[trigger] transforms@[i]).position.x
                        <= WORLD_LIMIT + k * MAX_REACH
                    &&& -WORLD_LIMIT - k * MAX_REACH <= transforms@[i].position.y
                        <= WORLD_LIMIT + k * MAX_REACH
                },
        decreases n - k,
    {
        let collision = collision_res.0[k];
        proof {
            let done = collision_res.0@.take(k as int + 1);
            assert(done.last() == collision);
            assert(done.drop_last() =~= collision_res.0@.take(k as int));
            assert(within_reach(collision.vector));
        }
        match find_row(transforms, collision.collider) {
            Some(index) => {
                let transform = &mut transforms[index];
                transform.position.x -= collision.vector.x;
                transform.position.y -= collision.vector.y;
            },
            None => {},
        }
        k += 1;
    }
    proof {
        assert(collision_res.0@.take(n as int) =~= collision_res.0@);
    }
}

/// The sum of the vectors of those of `collisions` whose mover is `entity`,
/// along x.
pub open spec fn correction_x(collisions: Seq<Collision>, entity: Entity) -> int
    decreases collisions.len(),
{
    if collisions.len() == 0 {
        0
    } else {
        correction_x(collisions.drop_last(), entity) + if collisions.last().collider == entity {
            collisions.last().vector.x as int
        } else {
            0
        }
    }
}

/// The sum of the vectors of those of `collisions` whose mover is `entity`,
/// along y.
pub open spec fn correction_y(collisions: Seq<Collision>, entity: Entity) -> int
    decreases collisions.len(),
{
    if collisions.len() == 0 {
        0
    } else {
        correction_y(collisions.drop_last(), entity) + if collisions.last().collider == entity {
            collisions.last().vector.y as int
        } else {
            0
        }
    }
}

proof fn lemma_correction_bound(collisions: Seq<Collision>, entity: Entity)
    requires
        forall|k: int| 0 <= k < collisions.len() ==> within_reach((#[trigger] collisions[k]).vector),
    ensures
        -collisions.len() * MAX_REACH <= correction_x(collisions, entity) <= collisions.len()
            * MAX_REACH,
        -collisions.len() * MAX_REACH <= correction_y(collisions, entity) <= collisions.len()
            * MAX_REACH,
    decreases collisions.len(),
{
    if collisions.len() > 0 {
        assert(within_reach(collisions.last().vector));
        lemma_correction_bound(collisions.drop_last(), entity);
    }
}

/// The obstacle stage moves the first row of an entity back by the sum of
/// the vectors of the entity's collisions, however many they are and in
/// whatever order they stand; every other row it leaves as it was.
pub proof fn lemma_corrections_add_up(rows: Seq<Placement>, collisions: Seq<Collision>)
    requires
        resolvable(rows, collisions),
    ensures
        placements_after(rows, collisions).len() == rows.len(),
        forall|i: int|
            0 <= i < rows.len() ==> (#[trigger] placements_after(rows, collisions)[i]).entity
                == rows[i].entity,
        forall|i: int|
            0 <= i < rows.len() && is_first_of(rows, i, rows[i].entity) ==> {
                &&& (#[trigger] placements_after(rows, collisions)[i]).position.x
                    == rows[i].position.x - correction_x(collisions, rows[i].entity)
                &&& placements_after(rows, collisions)[i].position.y == rows[i].position.y
                    - correction_y(collisions, rows[i].entity)
            },
        forall|i: int|
            0 <= i < rows.len() && !is_first_of(rows, i, rows[i].entity)
                ==> #[trigger] placements_after(rows, collisions)[i] == rows[i],
    decreases collisions.len(),
{
    if collisions.len() > 0 {
        let earlier = collisions.drop_last();
        let last = collisions.last();
        assert(within_reach(last.vector));
        assert forall|k: int| 0 <= k < earlier.len() implies within_reach(
            (#[trigger] earlier[k]).vector,
        ) by {
            assert(earlier[k] == collisions[k]);
        }
        lemma_corrections_add_up(rows, earlier);
        let before = placements_after(rows, earlier);
        let after = placements_after(rows, collisions);
        assert(after == placements_after_collision(before, last));
        lemma_first_row_by_owner(before, rows, last.collider);
        lemma_first_row_found(rows, last.collider);
        assert forall|i: int| 0 <= i < rows.len() && is_first_of(
            rows,
            i,
            rows[i].entity,
        ) implies {
            &&& (#[trigger] after[i]).position.x == rows[i].position.x - correction_x(
                collisions,
                rows[i].entity,
            )
            &&& after[i].position.y == rows[i].position.y - correction_y(
                collisions,
                rows[i].entity,
            )
        } by {
            lemma_correction_bound(earlier, rows[i].entity);
            assert(rows[i].position.in_world());
            assert(before[i].entity == rows[i].entity);
            if last.collider == rows[i].entity {
                lemma_first_row_is(rows, i, last.collider);
            }
        }
        assert forall|i: int| 0 <= i < rows.len() && !is_first_of(
            rows,
            i,
            rows[i].entity,
        ) implies #[trigger] after[i] == rows[i] by {
            assert(before[i] == rows[i]);
        }
    }
}

/// The number of those of `collisions` in which `collider` ran into
/// `collidee`.
pub open spec fn count_between(collisions: Seq<Collision>, collider: Entity, collidee: Entity) -> nat
    decreases collisions.len(),
{
    if collisions.len() == 0 {
        0
    } else {
        count_between(collisions.drop_last(), collider, collidee) + if collisions.last().collider
            == collider && collisions.last().collidee == collidee {
            1nat
        } else {
            0nat
        }
    }
}

proof fn lemma_count_joined(
    first: Seq<Collision>,
    second: Seq<Collision>,
    collider: Entity,
    collidee: Entity,
)
    ensures
        count_between(first + second, collider, collidee) == count_between(
            first,
            collider,
            collidee,
        ) + count_between(second, collider, collidee),
    decreases second.len(),
{
    if second.len() == 0 {
        assert(first + second =~= first);
    } else {
        assert((first + second).drop_last() =~= first + second.drop_last());
        assert((first + second).last() == second.last());
        lemma_count_joined(first, second.drop_last(), collider, collidee);
    }
}

proof fn lemma_count_of_pair(mover: Body, other: Body, collider: Entity, collidee: Entity)
    ensures
        count_between(collision_between(mover, other), collider, collidee) == if collider
            == mover.entity && collidee == other.entity && mover.entity != other.entity
            && overlap(mover.collider, other.collider) {
            1nat
        } else {
            0nat
        },
{
    lemma_overlap_pushes(mover.collider, other.collider);
    let found = collision_between(mover, other);
    if found.len() > 0 {
        assert(found.len() == 1);
        assert(found.drop_last().len() == 0);
        assert(count_between(found.drop_last(), collider, collidee) == 0);
        assert(found.last().collider == mover.entity);
        assert(found.last().collidee == other.entity);
    }
}

proof fn lemma_count_of_mover(mover: Body, others: Seq<Body>, collider: Entity, collidee: Entity)
    ensures
        collider != mover.entity || !has_row(others, collidee) ==> count_between(
            collisions_of(mover, others),
            collider,
            collidee,
        ) == 0,
    decreases others.len(),
{
    if others.len() > 0 {
        lemma_count_of_mover(mover, others.drop_last(), collider, collidee);
        lemma_count_joined(
            collisions_of(mover, others.drop_last()),
            collision_between(mover, others.last()),
            collider,
            collidee,
        );
        lemma_count_of_pair(mover, others.last(), collider, collidee);
        if !has_row(others, collidee) {
            assert(others[others.len() - 1].owner() != collidee);
            assert forall|i: int| 0 <= i < others.drop_last().len() implies (
            #[trigger] others.drop_last()[i]).owner() != collidee by {
                assert(others[i].owner() != collidee);
            }
        }
    }
}

proof fn lemma_count_of_mover_pair(mover: Body, others: Seq<Body>, j: int)
    requires
        distinct_entities(others),
        0 <= j < others.len(),
    ensures
        count_between(collisions_of(mover, others), mover.entity, others[j].entity) == if mover.entity
            != others[j].entity && overlap(mover.collider, others[j].collider) {
            1nat
        } else {
            0nat
        },
    decreases others.len(),
{
    let earlier = others.drop_last();
    let last = others.last();
    lemma_count_joined(
        collisions_of(mover, earlier),
        collision_between(mover, last),
        mover.entity,
        others[j].entity,
    );
    lemma_count_of_pair(mover, last, mover.entity, others[j].entity);
    if j == others.len() - 1 {
        assert forall|i: int| 0 <= i < earlier.len() implies (#[trigger] earlier[i]).owner()
            != last.entity by {
            assert(others[i].owner() != others[others.len() - 1].owner());
        }
        lemma_count_of_mover(mover, earlier, mover.entity, last.entity);
    } else {
        assert(earlier[j] == others[j]);
        assert(others[j].owner() != others[others.len() - 1].owner());
        assert forall|a: int, b: int| 0 <= a < b < earlier.len() implies (
        #[trigger] earlier[a]).owner() != (#[trigger] earlier[b]).owner() by {
            assert(others[a].owner() != others[b].owner());
        }
        lemma_count_of_mover_pair(mover, earlier, j);
    }
}

proof fn lemma_count_without_mover(
    movers: Seq<Body>,
    others: Seq<Body>,
    collider: Entity,
    collidee: Entity,
)
    requires
        !has_row(movers, collider),
    ensures
        count_between(all_collisions(movers, others), collider, collidee) == 0,
    decreases movers.len(),
{
    if movers.len() > 0 {
        assert(movers[movers.len() - 1].owner() != collider);
        assert forall|i: int| 0 <= i < movers.drop_last().len() implies (
        #[trigger] movers.drop_last()[i]).owner() != collider by {
            assert(movers[i].owner() != collider);
        }
        lemma_count_without_mover(movers.drop_last(), others, collider, collidee);
        lemma_count_of_mover(movers.last(), others, collider, collidee);
        lemma_count_joined(
            all_collisions(movers.drop_last(), others),
            collisions_of(movers.last(), others),
            collider,
            collidee,
        );
    }
}

/// Among movers that are different entities and bodies that are different
/// entities, a mover and a body whose bounds overlap have one collision, in
/// which the mover is the one that ran into the other, unless they are the
/// same entity; a mover and a body whose bounds do not overlap have none.
pub proof fn lemma_one_collision_per_pair(movers: Seq<Body>, others: Seq<Body>, i: int, j: int)
    requires
        distinct_entities(movers),
        distinct_entities(others),
        0 <= i < movers.len(),
        0 <= j < others.len(),
    ensures
        count_between(all_collisions(movers, others), movers[i].entity, others[j].entity)
            == if movers[i].entity != others[j].entity && overlap(
            movers[i].collider,
            others[j].collider,
        ) {
            1nat
        } else {
            0nat
        },
    decreases movers.len(),
{
    let earlier = movers.drop_last();
    let last = movers.last();
    lemma_count_joined(
        all_collisions(earlier, others),
        collisions_of(last, others),
        movers[i].entity,
        others[j].entity,
    );
    if i == movers.len() - 1 {
        assert forall|a: int| 0 <= a < earlier.len() implies (#[trigger] earlier[a]).owner()
            != last.entity by {
            assert(movers[a].owner() != movers[movers.len() - 1].owner());
        }
        lemma_count_without_mover(earlier, others, last.entity, others[j].entity);
        lemma_count_of_mover_pair(last, others, j);
    } else {
        assert(earlier[i] == movers[i]);
        assert(movers[i].owner() != movers[movers.len() - 1].owner());
        assert forall|a: int, b: int| 0 <= a < b < earlier.len() implies (
        #[trigger] earlier[a]).owner() != (#[trigger] earlier[b]).owner() by {
            assert(movers[a].owner() != movers[b].owner());
        }
        lemma_one_collision_per_pair(earlier, others, i, j);
        lemma_count_of_mover(last, others, movers[i].entity, others[j].entity);
    }
}

/// Every collision that the stage finds has a vector that can part the two:
/// none is the zero vector.
pub proof fn lemma_collisions_push(movers: Seq<Body>, others: Seq<Body>)
    ensures
        forall|k: int|
            0 <= k < all_collisions(movers, others).len() ==> is_push(
                (#[trigger] all_collisions(movers, others)[k]).vector,
            ),
    decreases movers.len(),
{
    if movers.len() > 0 {
        lemma_collisions_push(movers.drop_last(), others);
        lemma_collisions_of_push(movers.last(), others);
        let earlier = all_collisions(movers.drop_last(), others);
        let latest = collisions_of(movers.last(), others);
        assert forall|k: int| 0 <= k < all_collisions(movers, others).len() implies is_push(
            (#[trigger] all_collisions(movers, others)[k]).vector,
        ) by {
            if k < earlier.len() {
                assert(all_collisions(movers, others)[k] == earlier[k]);
            } else {
                assert(all_collisions(movers, others)[k] == latest[k - earlier.len()]);
            }
        }
    }
}

proof fn lemma_collisions_of_push(mover: Body, others: Seq<Body>)
    ensures
        forall|k: int|
            0 <= k < collisions_of(mover, others).len() ==> is_push(
                (#[trigger] collisions_of(mover, others)[k]).vector,
            ),
    decreases others.len(),
{
    if others.len() > 0 {
        lemma_collisions_of_push(mover, others.drop_last());
        lemma_overlap_pushes(mover.collider, others.last().collider);
        let earlier = collisions_of(mover, others.drop_last());
        let latest = collision_between(mover, others.last());
        assert forall|k: int| 0 <= k < collisions_of(mover, others).len() implies is_push(
            (#[trigger] collisions_of(mover, others)[k]).vector,
        ) by {
            if k < earlier.len() {
                assert(collisions_of(mover, others)[k] == earlier[k]);
            } else {
                assert(collisions_of(mover, others)[k] == latest[k - earlier.len()]);
            }
        }
    }
}

} // verus!
