//! Reduction of the four directional actions to at most one orientation.
use vstd::prelude::*;

verus! {

/// A facing direction of the actor.
#[derive(Clone, Copy, Debug, PartialEq, Eq, Structural)]
pub enum Orientation {
    Up,
    Right,
    Down,
    Left,
}

/// Which of the four directional actions are held during one tick.
#[derive(Clone, Copy, Debug, PartialEq, Eq, Structural)]
pub struct HeldActions {
    pub up: bool,
    pub down: bool,
    pub left: bool,
    pub right: bool,
}

/// Signal of one axis: -1 for the negative key, +1 for the positive one,
/// 0 when neither or both are held.
pub open spec fn axis_signal(negative: bool, positive: bool) -> int {
    (if negative { -1int } else { 0int }) + (if positive { 1int } else { 0int })
}

pub open spec fn horizontal_signal(held: HeldActions) -> int {
    axis_signal(held.left, held.right)
}

pub open spec fn vertical_signal(held: HeldActions) -> int {
    axis_signal(held.up, held.down)
}

/// The orientation asked for by `held`: the horizontal axis is decided first,
/// then the vertical one.
pub open spec fn resolved_orientation(held: HeldActions) -> Option<Orientation> {
    if horizontal_signal(held) == 1 {
        Some(Orientation::Right)
    } else if horizontal_signal(held) == -1 {
        Some(Orientation::Left)
    } else if vertical_signal(held) == 1 {
        Some(Orientation::Down)
    } else if vertical_signal(held) == -1 {
        Some(Orientation::Up)
    } else {
        None
    }
}

fn signal(negative: bool, positive: bool) -> (r: i8)
    ensures
        r as int == axis_signal(negative, positive),
{
    (if negative { -1i8 } else { 0i8 }) + (if positive { 1i8 } else { 0i8 })
}

/// Resolves the held actions of one tick to the orientation they ask for.
pub fn read_movements_actions(held: &HeldActions) -> (r: Option<Orientation>)
    ensures
        r == resolved_orientation(*held),
{
    let horizontal_movement: i8 = signal(held.left, held.right);
    let vertical_movement: i8 = signal(held.up, held.down);
    if horizontal_movement == 1 {
        Some(Orientation::Right)
    } else if horizontal_movement == -1 {
        Some(Orientation::Left)
    } else if vertical_movement == 1 {
        Some(Orientation::Down)
    } else if vertical_movement == -1 {
        Some(Orientation::Up)
    } else {
        None
    }
}

/// A single held key gives its own direction; a horizontal key that is not
/// cancelled by its opposite wins over any vertical key; two opposite keys on
/// one axis act as if neither were held; with nothing held nothing is
/// resolved.
pub proof fn lemma_resolution_rules(held: HeldActions)
    ensures
        (held.right && !held.left) ==> resolved_orientation(held) == Some(Orientation::Right),
        (held.left && !held.right) ==> resolved_orientation(held) == Some(Orientation::Left),
        (held.left == held.right && held.down && !held.up) ==> resolved_orientation(held)
            == Some(Orientation::Down),
        (held.left == held.right && held.up && !held.down) ==> resolved_orientation(held)
            == Some(Orientation::Up),
        (held.left && held.right) ==> resolved_orientation(held) == resolved_orientation(
            (HeldActions { left: false, right: false, ..held }),
        ),
        (held.up && held.down) ==> resolved_orientation(held) == resolved_orientation(
            (HeldActions { up: false, down: false, ..held }),
        ),
        (!held.up && !held.down && !held.left && !held.right) ==> resolved_orientation(held)
            is None,
{
}

} // verus!
