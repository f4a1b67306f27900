//! Collision checks against the post-move snake state: fruit pickup and
//! self-collision.

use vstd::prelude::*;
use crate::grid::{position_list_contains, Position};

verus! {

/// Whether the head has picked up the fruit: exact position equality.
pub fn check_fruit(head_position: Position, fruit_position: Position) -> (r: bool)
    ensures
        r == (head_position == fruit_position),
{
    head_position == fruit_position
}

/// Whether the head has run into the body: true exactly when the head
/// position equals some segment's position.
pub fn check_self_collision(head_position: Position, segments: &Vec<Position>) -> (r: bool)
    ensures
        r == segments@.contains(head_position),
{
    position_list_contains(segments, head_position)
}

/// With no segments there is nothing to run into: self-collision is never
/// reported for an empty chain.
pub proof fn lemma_no_self_collision_when_empty(head_position: Position, segments: Seq<Position>)
    requires
        segments.len() == 0,
    ensures
        !segments.contains(head_position),
{
}

} // verus!
