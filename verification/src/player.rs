//! Player input and movement: key-to-delta mapping and wall-checked,
//! clamped moves of every player-tagged entity.

use vstd::prelude::*;

use crate::components::Player;
use crate::components::Position;
use crate::map::spec_idx;
use crate::map::xy_idx;
use crate::map::TileType;
use crate::state::State;
use crate::world::World;

verus! {

/// `v` held into the closed interval [lo, hi].
pub open spec fn clamp_i(v: int, lo: int, hi: int) -> int {
    if v < lo {
        lo
    } else if v > hi {
        hi
    } else {
        v
    }
}

/// Where a player entity at `p` ends up for delta (dx, dy): the destination
/// is clamped into the grid; if its tile is a wall the entity stays put.
pub open spec fn moved_position(p: Position, dx: int, dy: int, map: Seq<TileType>) -> Position {
    let cx = clamp_i(p.x + dx, 0, 79);
    let cy = clamp_i(p.y + dy, 0, 49);
    if map[spec_idx(cx, cy)] != TileType::Wall {
        Position { x: cx as i32, y: cy as i32 }
    } else {
        p
    }
}

/// What one entity's position slot holds after a move: only entities with
/// both the player tag and a position move.
pub open spec fn entity_after_move(
    pos: Option<Position>,
    player: Option<Player>,
    dx: int,
    dy: int,
    map: Seq<TileType>,
) -> Option<Position> {
    match (player, pos) {
        (Some(_), Some(p)) => Some(moved_position(p, dx, dy, map)),
        _ => pos,
    }
}

/// The whole position table after a move of every player entity.
pub open spec fn positions_after_move(w: World, dx: int, dy: int) -> Seq<Option<Position>> {
    Seq::new(
        w.positions@.len(),
        |e: int| entity_after_move(w.positions@[e], w.players@[e], dx, dy, w.map@),
    )
}

/// Moving into a wall never changes the position.
pub proof fn lemma_move_into_wall_is_no_op(p: Position, dx: int, dy: int, map: Seq<TileType>)
    requires
        map[spec_idx(clamp_i(p.x + dx, 0, 79), clamp_i(p.y + dy, 0, 49))] == TileType::Wall,
    ensures
        moved_position(p, dx, dy, map) == p,
{
}

/// Moving onto a non-wall tile commits exactly the delta, then clamps each
/// axis into the grid.
pub proof fn lemma_move_onto_floor_commits(p: Position, dx: int, dy: int, map: Seq<TileType>)
    requires
        map[spec_idx(clamp_i(p.x + dx, 0, 79), clamp_i(p.y + dy, 0, 49))] != TileType::Wall,
    ensures
        moved_position(p, dx, dy, map).x == clamp_i(p.x + dx, 0, 79),
        moved_position(p, dx, dy, map).y == clamp_i(p.y + dy, 0, 49),
{
}

/// Moves every entity carrying both the player tag and a position by
/// (delta_x, delta_y), refusing moves onto wall tiles and clamping into the
/// grid; everything else in the world is untouched.
pub fn try_move_player(delta_x: i32, delta_y: i32, ecs: &mut World)
    requires
        old(ecs).wf(),
    ensures
        final(ecs).wf(),
        final(ecs).positions@ == positions_after_move(*old(ecs), delta_x as int, delta_y as int),
        final(ecs).renderables@ == old(ecs).renderables@,
        final(ecs).players@ == old(ecs).players@,
        final(ecs).map@ == old(ecs).map@,
{
    let ghost orig = *ecs;
    let n = ecs.positions.len();
    let mut e: usize = 0;
    while e < n
        invariant
            ecs.wf(),
            orig.wf(),
            e <= n,
            n == orig.positions@.len(),
            ecs.positions@.len() == n,
            ecs.renderables@ == orig.renderables@,
            ecs.players@ == orig.players@,
            ecs.map@ == orig.map@,
            forall|k: int|
                0 <= k < e ==> ecs.positions@[k] == entity_after_move(
                    orig.positions@[k],
                    orig.players@[k],
                    delta_x as int,
                    delta_y as int,
                    orig.map@,
                ),
            forall|k: int| e <= k < n ==> ecs.positions@[k] == orig.positions@[k],
        decreases n - e,
    {
        if ecs.players[e].is_some() && ecs.positions[e].is_some() {
            let p = ecs.positions[e].unwrap();
            let tx: i64 = (p.x as i64) + (delta_x as i64);
            let ty: i64 = (p.y as i64) + (delta_y as i64);
            let cx: i32 = if tx < 0 {
                0
            } else if tx > 79 {
                79
            } else {
                tx as i32
            };
            let cy: i32 = if ty < 0 {
                0
            } else if ty > 49 {
                49
            } else {
                ty as i32
            };
            let idx = xy_idx(cx, cy);
            if ecs.map[idx] != TileType::Wall {
                ecs.positions.set(e, Some(Position { x: cx, y: cy }));
            }
        }
        e = e + 1;
    }
    proof {
        assert(ecs.positions@ =~= positions_after_move(orig, delta_x as int, delta_y as int));
    }
}

/// The key events the input layer recognizes.
#[derive(Clone, Copy, PartialEq, Eq, Structural, Debug)]
pub enum InputKey {
    Left,
    Right,
    Up,
    Down,
    Numpad4,
    Numpad6,
    Numpad8,
    Numpad2,
    H,
    J,
    K,
    L,
    Other,
}

/// The single-axis, magnitude-one movement delta a frame's key event maps
/// to, when it maps to one; unrecognized keys and empty frames map to none.
pub open spec fn spec_key_delta(key: Option<InputKey>) -> Option<(int, int)> {
    match key {
        None => None,
        Some(k) => match k {
            InputKey::Left => Some((-1int, 0int)),
            InputKey::Numpad4 => Some((-1int, 0int)),
            InputKey::H => Some((-1int, 0int)),
            InputKey::Right => Some((1int, 0int)),
            InputKey::Numpad6 => Some((1int, 0int)),
            InputKey::L => Some((1int, 0int)),
            InputKey::Up => Some((0int, -1int)),
            InputKey::Numpad8 => Some((0int, -1int)),
            InputKey::K => Some((0int, -1int)),
            InputKey::Down => Some((0int, 1int)),
            InputKey::Numpad2 => Some((0int, 1int)),
            InputKey::J => Some((0int, 1int)),
            InputKey::Other => None,
        },
    }
}

/// Applies the frame's key event, if any, as a player move; an empty frame
/// or an unrecognized key changes nothing.
pub fn player_input(gs: &mut State, key: Option<InputKey>)
    requires
        old(gs).ecs.wf(),
    ensures
        final(gs).ecs.wf(),
        match spec_key_delta(key) {
            Some(d) => final(gs).ecs.positions@ == positions_after_move(old(gs).ecs, d.0, d.1)
                && final(gs).ecs.renderables@ == old(gs).ecs.renderables@
                && final(gs).ecs.players@ == old(gs).ecs.players@
                && final(gs).ecs.map@ == old(gs).ecs.map@,
            None => *final(gs) == *old(gs),
        },
{
    match key {
        None => {},
        Some(k) => match k {
            InputKey::Left | InputKey::Numpad4 | InputKey::H => {
                try_move_player(-1, 0, &mut gs.ecs)
            },
            InputKey::Right | InputKey::Numpad6 | InputKey::L => {
                try_move_player(1, 0, &mut gs.ecs)
            },
            InputKey::Up | InputKey::Numpad8 | InputKey::K => {
                try_move_player(0, -1, &mut gs.ecs)
            },
            InputKey::Down | InputKey::Numpad2 | InputKey::J => {
                try_move_player(0, 1, &mut gs.ecs)
            },
            InputKey::Other => {},
        },
    }
}

} // verus!
