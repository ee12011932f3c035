//! Collision tests between bounding circles, and what they find.

use vstd::prelude::*;
use crate::components::BoundingCircle;
use crate::entity::Entity;
use crate::geometry::{
    lemma_penetration_is_a_push, penetrate, penetration, reaches, Vec2, MAX_REACH,
};

verus! {

/// A bounding circle in its place.
#[derive(Copy, Clone, Debug, PartialEq, Eq, Structural)]
pub struct Collider {
    pub position: Vec2,
    pub bound: BoundingCircle,
}

/// The moving entity `collider` has run into `collidee`. Taking `vector`
/// off the position of `collider` parts the two.
#[derive(Copy, Clone, Debug, PartialEq, Eq, Structural)]
pub struct Collision {
    pub collider: Entity,
    pub collidee: Entity,
    pub vector: Vec2,
}

/// The collisions of one tick. They are found anew in every tick.
#[derive(Debug)]
pub struct Collisions(pub Vec<Collision>);

impl Default for Collisions {
    fn default() -> (collisions: Self)
        ensures
            collisions.0@ == Seq::<Collision>::empty(),
    {
        Collisions(Vec::new())
    }
}

/// The projectile `projectile` has hit `target`.
#[derive(Copy, Clone, Debug, PartialEq, Eq, Structural)]
pub struct ProjectileCollision {
    pub projectile: Entity,
    pub target: Entity,
    pub vector: Vec2,
}

/// The projectile hits of one tick. They are found anew in every tick.
#[derive(Debug)]
pub struct ProjectileCollisions(pub Vec<ProjectileCollision>);

impl Default for ProjectileCollisions {
    fn default() -> (collisions: Self)
        ensures
            collisions.0@ == Seq::<ProjectileCollision>::empty(),
    {
        ProjectileCollisions(Vec::new())
    }
}

/// Whether the circles `a` and `b` overlap: their centres are closer than
/// the sum of their radii.
pub open spec fn overlap(a: Collider, b: Collider) -> bool {
    reaches(a.position, b.position, a.bound.radius + b.bound.radius)
}

/// How far the circle `a` has entered the circle `b`, if they overlap: a
/// vector from the centre of `a` towards the centre of `b`, as long as the
/// circles overlap deep.
pub open spec fn body_collision(a: Collider, b: Collider) -> Option<Vec2> {
    penetration(a.position, b.position, a.bound.radius + b.bound.radius)
}

/// Whether the point `projectile` lies inside the circle `target`.
pub open spec fn hits(projectile: Vec2, target: Collider) -> bool {
    reaches(projectile, target.position, target.bound.radius as int)
}

/// How far the point `projectile` has entered the circle `target`, if it
/// lies inside: a vector from the point towards the centre, as long as the
/// point lies from the rim.
pub open spec fn projectile_collision(projectile: Vec2, target: Collider) -> Option<Vec2> {
    penetration(projectile, target.position, target.bound.radius as int)
}

/// Whether neither component of `vector` is longer than two bounds reach.
pub open spec fn within_reach(vector: Vec2) -> bool {
    &&& -MAX_REACH <= vector.x <= MAX_REACH
    &&& -MAX_REACH <= vector.y <= MAX_REACH
}

/// Whether neither component of `vector` is longer than two bounds reach.
pub fn is_within_reach(vector: &Vec2) -> (within: bool)
    ensures
        within == within_reach(*vector),
{
    let reach: i64 = MAX_REACH as i64;
    -reach <= vector.x && vector.x <= reach && -reach <= vector.y && vector.y <= reach
}

/// Whether `vector` can part two bounds: it is not the zero vector, and
/// neither component is longer than two bounds reach.
pub open spec fn is_push(vector: Vec2) -> bool {
    &&& vector != Vec2 { x: 0, y: 0 }
    &&& within_reach(vector)
}

/// How far the circle `a` has entered the circle `b`, if they overlap.
pub fn check_body_collision(a: Collider, b: Collider) -> (collision: Option<Vec2>)
    ensures
        collision == body_collision(a, b),
        collision is Some <==> overlap(a, b),
        collision matches Some(vector) ==> is_push(vector),
{
    let reach: u64 = a.bound.radius as u64 + b.bound.radius as u64;
    proof {
        if overlap(a, b) {
            lemma_penetration_is_a_push(a.position, b.position, reach as int);
        }
    }
    penetrate(a.position, b.position, reach)
}

/// How far the point `projectile` has entered the circle `target`, if it
/// lies inside.
pub fn check_projectile_collision(projectile: &Vec2, target: Collider) -> (collision: Option<Vec2>)
    ensures
        collision == projectile_collision(*projectile, target),
        collision is Some <==> hits(*projectile, target),
        collision matches Some(vector) ==> is_push(vector),
{
    let reach: u64 = target.bound.radius as u64;
    proof {
        if hits(*projectile, target) {
            lemma_penetration_is_a_push(*projectile, target.position, reach as int);
        }
    }
    penetrate(*projectile, target.position, reach)
}

/// Overlapping circles get a vector that can part them; circles that do not
/// overlap get none.
pub proof fn lemma_overlap_pushes(a: Collider, b: Collider)
    ensures
        body_collision(a, b) is Some <==> overlap(a, b),
        body_collision(a, b) matches Some(vector) ==> is_push(vector),
{
    if overlap(a, b) {
        lemma_penetration_is_a_push(a.position, b.position, a.bound.radius + b.bound.radius);
    }
}

/// A point inside a circle gets a vector that can part the two; a point
/// outside gets none.
pub proof fn lemma_hit_pushes(projectile: Vec2, target: Collider)
    ensures
        projectile_collision(projectile, target) is Some <==> hits(projectile, target),
        projectile_collision(projectile, target) matches Some(vector) ==> is_push(vector),
{
    if hits(projectile, target) {
        lemma_penetration_is_a_push(projectile, target.position, target.bound.radius as int);
    }
}

} // verus!
