//! The 80x50 tile grid: index addressing, room and corridor carving.

use vstd::prelude::*;

use crate::components::Color;
use crate::display::DisplayBuffer;
use crate::display::DisplayCell;
use crate::rect::Rect;
use crate::rng::rng_range;
use crate::rng::rng_roll_dice;
use rltk::RandomNumberGenerator;

verus! {

/// Cap on how many room candidates the generator samples.
pub const MAX_ROOMS: i32 = 30;

/// Smallest room side the generator samples (inclusive).
pub const MIN_SIZE: i32 = 6;

/// Largest room side the generator samples (exclusive).
pub const MAX_SIZE: i32 = 10;

/// Terrain classification of a single grid cell.
#[derive(PartialEq, Eq, Copy, Clone, Structural, Debug)]
pub enum TileType {
    Wall,
    Floor,
}

/// The 1-D index of cell (x, y) on the 80-wide grid.
pub open spec fn spec_idx(x: int, y: int) -> int {
    y * 80 + x
}

/// Converts a coordinate pair to an index into the tile vector.
pub fn xy_idx(x: i32, y: i32) -> (idx: usize)
    requires
        0 <= x < 80,
        0 <= y < 50,
    ensures
        idx == spec_idx(x as int, y as int),
        idx < 4000,
{
    (y as usize) * 80 + (x as usize)
}

/// Grid addressing is injective: distinct in-range coordinate pairs get
/// distinct indices, and every index lies in [0, 4000).
pub proof fn lemma_xy_idx_injective(x1: int, y1: int, x2: int, y2: int)
    requires
        0 <= x1 < 80,
        0 <= y1 < 50,
        0 <= x2 < 80,
        0 <= y2 < 50,
        spec_idx(x1, y1) == spec_idx(x2, y2),
    ensures
        x1 == x2,
        y1 == y2,
        0 <= spec_idx(x1, y1) < 4000,
{
}

/// Every index in [0, 4000) decomposes uniquely into in-range coordinates.
pub proof fn lemma_idx_decompose(i: int)
    requires
        0 <= i < 4000,
    ensures
        i == spec_idx(i % 80, i / 80),
        0 <= i % 80 < 80,
        0 <= i / 80 < 50,
{
    assert(i == (i / 80) * 80 + i % 80 && 0 <= i % 80 < 80 && 0 <= i / 80 < 50)
        by (nonlinear_arith)
        requires 0 <= i < 4000;
}

/// Cell (x, y) lies in the carved interior of `room`: one cell in from the
/// left and top edge, out to the right and bottom edge inclusive.
pub open spec fn in_room_interior(room: Rect, x: int, y: int) -> bool {
    room.x1 + 1 <= x <= room.x2 && room.y1 + 1 <= y <= room.y2
}

/// Index form of `in_room_interior`, for indices in [0, 4000).
pub open spec fn idx_in_interior(room: Rect, i: int) -> bool {
    in_room_interior(room, i % 80, i / 80)
}

/// Carves the interior of `room` to floor; every other cell keeps its tile.
pub fn apply_room_to_map(room: &Rect, map: &mut Vec<TileType>)
    requires
        old(map).len() == 4000,
        room.in_map_bounds(),
    ensures
        final(map).len() == 4000,
        forall|i: int|
            0 <= i < 4000 ==> #[trigger] final(map)@[i] == (if idx_in_interior(*room, i) {
                TileType::Floor
            } else {
                old(map)@[i]
            }),
{
    let ghost orig = map@;
    let mut y = room.y1 + 1;
    while y <= room.y2
        invariant
            map.len() == 4000,
            room.in_map_bounds(),
            room.y1 + 1 <= y <= room.y2 + 1,
            forall|i: int|
                0 <= i < 4000 ==> #[trigger] map@[i] == (if idx_in_interior(*room, i) && i / 80
                    < y {
                    TileType::Floor
                } else {
                    orig[i]
                }),
        decreases room.y2 + 1 - y,
    {
        let mut x = room.x1 + 1;
        while x <= room.x2
            invariant
                map.len() == 4000,
                room.in_map_bounds(),
                room.y1 + 1 <= y <= room.y2,
                room.x1 + 1 <= x <= room.x2 + 1,
                forall|i: int|
                    0 <= i < 4000 ==> #[trigger] map@[i] == (if idx_in_interior(*room, i) && (i
                        / 80 < y || (i / 80 == y && i % 80 < x)) {
                        TileType::Floor
                    } else {
                        orig[i]
                    }),
            decreases room.x2 + 1 - x,
        {
            let idx = xy_idx(x, y);
            map.set(idx, TileType::Floor);
            proof {
                assert forall|i: int| 0 <= i < 4000 implies #[trigger] map@[i] == (if idx_in_interior(
                    *room,
                    i,
                ) && (i / 80 < y || (i / 80 == y && i % 80 < x + 1)) {
                    TileType::Floor
                } else {
                    orig[i]
                }) by {
                    lemma_idx_decompose(i);
                }
            }
            x = x + 1;
        }
        y = y + 1;
    }
}

/// A fresh 4000-cell grid holding `tile` everywhere.
pub fn filled_map(tile: TileType) -> (map: Vec<TileType>)
    ensures
        map.len() == 4000,
        forall|i: int| 0 <= i < 4000 ==> map@[i] == tile,
{
    let mut map: Vec<TileType> = Vec::new();
    let mut n: usize = 0;
    while n < 4000
        invariant
            map.len() == n,
            n <= 4000,
            forall|i: int| 0 <= i < n ==> map@[i] == tile,
        decreases 4000 - n,
    {
        map.push(tile);
        n = n + 1;
    }
    map
}

/// Cell (x, y) lies on the outer border of the 80x50 grid.
pub open spec fn is_border(x: int, y: int) -> bool {
    x == 0 || x == 79 || y == 0 || y == 49
}

/// Index form of `is_border`, for indices in [0, 4000).
pub open spec fn idx_is_border(i: int) -> bool {
    is_border(i % 80, i / 80)
}

/// The smaller of two mathematical integers.
pub open spec fn imin(a: int, b: int) -> int {
    if a < b {
        a
    } else {
        b
    }
}

/// The larger of two mathematical integers.
pub open spec fn imax(a: int, b: int) -> int {
    if a < b {
        b
    } else {
        a
    }
}

/// Index `i` is one of the cells a horizontal tunnel from x1 to x2 at row y
/// writes: the contiguous index range of the span, restricted to indices the
/// carver accepts (strictly above 0, below 4000).
pub open spec fn on_horizontal_span(i: int, x1: int, x2: int, y: int) -> bool {
    0 < i < 4000 && spec_idx(imin(x1, x2), y) <= i <= spec_idx(imax(x1, x2), y)
}

/// Index `i` is one of the cells a vertical tunnel from y1 to y2 at column x
/// writes: one index per row of the span, restricted as in the horizontal
/// case.
pub open spec fn on_vertical_span(i: int, y1: int, y2: int, x: int) -> bool {
    0 < i < 4000 && exists|yy: int| imin(y1, y2) <= yy <= imax(y1, y2) && i == spec_idx(x, yy)
}

/// Sets the cell whose index is y*80 + x to floor, skipping the write when
/// that index falls outside the accepted range.
fn carve_at(map: &mut Vec<TileType>, x: i32, y: i32)
    requires
        old(map).len() == 4000,
    ensures
        final(map).len() == 4000,
        forall|i: int|
            0 <= i < 4000 ==> #[trigger] final(map)@[i] == (if i == spec_idx(x as int, y as int)
                && 0 < i {
                TileType::Floor
            } else {
                old(map)@[i]
            }),
{
    let idx: i64 = (y as i64) * 80 + (x as i64);
    if 0 < idx && idx < 4000 {
        map.set(idx as usize, TileType::Floor);
    }
}

/// Carves a horizontal corridor at row y spanning the columns between x1 and
/// x2 inclusive; any cell whose index falls outside (0, 4000) is skipped, and
/// every cell off the span keeps its tile.
pub fn apply_horizontal_tunnel(map: &mut Vec<TileType>, x1: i32, x2: i32, y: i32)
    requires
        old(map).len() == 4000,
    ensures
        final(map).len() == 4000,
        forall|i: int|
            0 <= i < 4000 ==> #[trigger] final(map)@[i] == (if on_horizontal_span(
                i,
                x1 as int,
                x2 as int,
                y as int,
            ) {
                TileType::Floor
            } else {
                old(map)@[i]
            }),
{
    let ghost orig = map@;
    let mn = if x1 < x2 {
        x1
    } else {
        x2
    };
    let mx = if x1 < x2 {
        x2
    } else {
        x1
    };
    let mut x = mn;
    while x < mx
        invariant
            mn <= x <= mx,
            mn == imin(x1 as int, x2 as int),
            mx == imax(x1 as int, x2 as int),
            map.len() == 4000,
            forall|i: int|
                0 <= i < 4000 ==> #[trigger] map@[i] == (if 0 < i && spec_idx(mn as int, y as int)
                    <= i < spec_idx(x as int, y as int) {
                    TileType::Floor
                } else {
                    orig[i]
                }),
        decreases mx - x,
    {
        carve_at(map, x, y);
        x = x + 1;
    }
    carve_at(map, mx, y);
}

/// Carves a vertical corridor at column x spanning the rows between y1 and
/// y2 inclusive; any cell whose index falls outside (0, 4000) is skipped, and
/// every cell off the span keeps its tile.
pub fn apply_vertical_tunnel(map: &mut Vec<TileType>, y1: i32, y2: i32, x: i32)
    requires
        old(map).len() == 4000,
    ensures
        final(map).len() == 4000,
        forall|i: int|
            0 <= i < 4000 ==> #[trigger] final(map)@[i] == (if on_vertical_span(
                i,
                y1 as int,
                y2 as int,
                x as int,
            ) {
                TileType::Floor
            } else {
                old(map)@[i]
            }),
{
    let ghost orig = map@;
    let mn = if y1 < y2 {
        y1
    } else {
        y2
    };
    let mx = if y1 < y2 {
        y2
    } else {
        y1
    };
    let mut y = mn;
    while y < mx
        invariant
            mn <= y <= mx,
            mn == imin(y1 as int, y2 as int),
            mx == imax(y1 as int, y2 as int),
            map.len() == 4000,
            forall|i: int|
                0 <= i < 4000 ==> #[trigger] map@[i] == (if 0 < i && (exists|yy: int|
                    mn <= yy < y && i == spec_idx(x as int, yy)) {
                    TileType::Floor
                } else {
                    orig[i]
                }),
        decreases mx - y,
    {
        carve_at(map, x, y);
        proof {
            assert forall|i: int| 0 <= i < 4000 implies #[trigger] map@[i] == (if 0 < i && (
            exists|yy: int| mn <= yy < y + 1 && i == spec_idx(x as int, yy)) {
                TileType::Floor
            } else {
                orig[i]
            }) by {
                if i == spec_idx(x as int, y as int) && 0 < i {
                    assert(mn <= y < y + 1 && i == spec_idx(x as int, y as int));
                }
            }
        }
        y = y + 1;
    }
    carve_at(map, x, mx);
    proof {
        assert forall|i: int| 0 <= i < 4000 implies #[trigger] map@[i] == (if
        on_vertical_span(i, y1 as int, y2 as int, x as int) {
            TileType::Floor
        } else {
            orig[i]
        }) by {
            if i == spec_idx(x as int, mx as int) && 0 < i {
                assert(imin(y1 as int, y2 as int) <= mx as int <= imax(y1 as int, y2 as int)
                    && i == spec_idx(x as int, mx as int));
            }
        }
    }
}

/// A scatter draw the test-map sampler can produce: x in [1, 79] and y in
/// [1, 49].
pub open spec fn scatter_draw_ok(d: (i32, i32)) -> bool {
    1 <= d.0 <= 79 && 1 <= d.1 <= 49
}

/// One of the first `m` draws hits index `i`, the spawn cell excepted.
pub open spec fn scattered_upto(draws: Seq<(i32, i32)>, m: int, i: int) -> bool {
    exists|k: int|
        0 <= k < m && i == spec_idx((#[trigger] draws[k]).0 as int, draws[k].1 as int) && i
            != spec_idx(40, 25)
}

/// Some draw hits index `i`, the spawn cell excepted.
pub open spec fn scattered(draws: Seq<(i32, i32)>, i: int) -> bool {
    scattered_upto(draws, draws.len() as int, i)
}

/// The map is exactly what the border plus 400 scatter draws produce: wall
/// on the border and on every drawn non-spawn cell, floor everywhere else.
pub open spec fn test_map_from_draws(map: Seq<TileType>, draws: Seq<(i32, i32)>) -> bool {
    draws.len() == 400 && (forall|k: int|
        0 <= k < draws.len() ==> scatter_draw_ok(#[trigger] draws[k])) && (forall|i: int|
        0 <= i < 4000 ==> #[trigger] map[i] == (if idx_is_border(i) || scattered(draws, i) {
            TileType::Wall
        } else {
            TileType::Floor
        }))
}

/// Sets every drawn cell to wall, sparing the spawn cell (40, 25); every
/// other cell keeps its tile. The draws come in as plain values, so the
/// whole scatter is pinned whatever the random source produced.
pub fn scatter_walls(map: &mut Vec<TileType>, draws: &Vec<(i32, i32)>)
    requires
        old(map).len() == 4000,
        forall|k: int| 0 <= k < draws@.len() ==> scatter_draw_ok(#[trigger] draws@[k]),
    ensures
        final(map).len() == 4000,
        forall|i: int|
            0 <= i < 4000 ==> #[trigger] final(map)@[i] == (if scattered(draws@, i) {
                TileType::Wall
            } else {
                old(map)@[i]
            }),
{
    let ghost orig = map@;
    let spawn = xy_idx(40, 25);
    let mut k: usize = 0;
    while k < draws.len()
        invariant
            k <= draws@.len(),
            map.len() == 4000,
            spawn == spec_idx(40, 25),
            forall|kk: int| 0 <= kk < draws@.len() ==> scatter_draw_ok(#[trigger] draws@[kk]),
            forall|i: int|
                0 <= i < 4000 ==> #[trigger] map@[i] == (if scattered_upto(draws@, k as int, i) {
                    TileType::Wall
                } else {
                    orig[i]
                }),
        decreases draws@.len() - k,
    {
        let d = draws[k];
        let idx = xy_idx(d.0, d.1);
        if idx != spawn {
            map.set(idx, TileType::Wall);
        }
        proof {
            assert forall|i: int| 0 <= i < 4000 implies #[trigger] map@[i] == (if scattered_upto(
                draws@,
                k + 1,
                i,
            ) {
                TileType::Wall
            } else {
                orig[i]
            }) by {
                if scattered_upto(draws@, k as int, i) {
                    let kk = choose|kk: int|
                        0 <= kk < k && i == spec_idx(
                            (#[trigger] draws@[kk]).0 as int,
                            draws@[kk].1 as int,
                        ) && i != spec_idx(40, 25);
                    assert(0 <= kk < k + 1 && i == spec_idx(
                        draws@[kk].0 as int,
                        draws@[kk].1 as int,
                    ) && i != spec_idx(40, 25));
                }
                if i == idx && i != spec_idx(40, 25) {
                    assert(0 <= k < k + 1 && i == spec_idx(
                        draws@[k as int].0 as int,
                        draws@[k as int].1 as int,
                    ) && i != spec_idx(40, 25));
                }
            }
        }
        k = k + 1;
    }
}

/// A map with solid boundary walls and 400 randomly scattered walls, sparing
/// the spawn cell (40, 25); everything else starts as floor. The scatter
/// draws are collected first and handed to `scatter_walls`, which pins the
/// result for whatever was drawn.
pub fn new_map_test(rng: &mut RandomNumberGenerator) -> (map: Vec<TileType>)
    ensures
        map.len() == 4000,
        forall|i: int| 0 <= i < 4000 && idx_is_border(i) ==> map@[i] == TileType::Wall,
        map@[spec_idx(40, 25)] == TileType::Floor,
        exists|draws: Seq<(i32, i32)>| #[trigger] test_map_from_draws(map@, draws),
{
    let mut map = filled_map(TileType::Floor);

    let mut x: i32 = 0;
    while x < 80
        invariant
            0 <= x <= 80,
            map.len() == 4000,
            forall|xx: int| 0 <= xx < x ==> map@[spec_idx(xx, 0)] == TileType::Wall,
            forall|xx: int| 0 <= xx < x ==> map@[spec_idx(xx, 49)] == TileType::Wall,
            forall|i: int| 0 <= i < 4000 && !idx_is_border(i) ==> map@[i] == TileType::Floor,
        decreases 80 - x,
    {
        let top = xy_idx(x, 0);
        map.set(top, TileType::Wall);
        let bottom = xy_idx(x, 49);
        map.set(bottom, TileType::Wall);
        proof {
            assert forall|i: int| 0 <= i < 4000 && !idx_is_border(i) implies map@[i]
                == TileType::Floor by {
                lemma_idx_decompose(i);
            }
        }
        x = x + 1;
    }
    let mut y: i32 = 0;
    while y < 50
        invariant
            0 <= y <= 50,
            map.len() == 4000,
            forall|xx: int| 0 <= xx < 80 ==> map@[spec_idx(xx, 0)] == TileType::Wall,
            forall|xx: int| 0 <= xx < 80 ==> map@[spec_idx(xx, 49)] == TileType::Wall,
            forall|yy: int| 0 <= yy < y ==> map@[spec_idx(0, yy)] == TileType::Wall,
            forall|yy: int| 0 <= yy < y ==> map@[spec_idx(79, yy)] == TileType::Wall,
            forall|i: int| 0 <= i < 4000 && !idx_is_border(i) ==> map@[i] == TileType::Floor,
        decreases 50 - y,
    {
        let left = xy_idx(0, y);
        map.set(left, TileType::Wall);
        let right = xy_idx(79, y);
        map.set(right, TileType::Wall);
        proof {
            assert forall|i: int| 0 <= i < 4000 && !idx_is_border(i) implies map@[i]
                == TileType::Floor by {
                lemma_idx_decompose(i);
            }
        }
        y = y + 1;
    }

    proof {
        assert forall|i: int| 0 <= i < 4000 && idx_is_border(i) implies map@[i]
            == TileType::Wall by {
            lemma_idx_decompose(i);
        }
        lemma_idx_decompose(spec_idx(40, 25));
        assert(!idx_is_border(spec_idx(40, 25)));
    }

    let mut draws: Vec<(i32, i32)> = Vec::new();
    let mut n: i32 = 0;
    while n < 400
        invariant
            0 <= n <= 400,
            draws@.len() == n,
            map.len() == 4000,
            forall|k: int| 0 <= k < draws@.len() ==> scatter_draw_ok(#[trigger] draws@[k]),
            forall|i: int| 0 <= i < 4000 && idx_is_border(i) ==> map@[i] == TileType::Wall,
            forall|i: int| 0 <= i < 4000 && !idx_is_border(i) ==> map@[i] == TileType::Floor,
        decreases 400 - n,
    {
        let sx = rng_roll_dice(rng, 1, 79);
        let sy = rng_roll_dice(rng, 1, 49);
        draws.push((sx, sy));
        n = n + 1;
    }
    let ghost pre = map@;
    scatter_walls(&mut map, &draws);
    proof {
        assert(!idx_is_border(spec_idx(40, 25)));
        assert forall|i: int| 0 <= i < 4000 implies #[trigger] map@[i] == (if idx_is_border(i)
            || scattered(draws@, i) {
            TileType::Wall
        } else {
            TileType::Floor
        }) by {
            if !scattered(draws@, i) {
                assert(map@[i] == pre[i]);
            }
        }
        assert(test_map_from_draws(map@, draws@));
    }
    map
}

/// Every grid cell of the horizontal span between x1 and x2 at row y holds
/// floor.
pub open spec fn h_span_floor(map: Seq<TileType>, x1: int, x2: int, y: int) -> bool {
    forall|i: int| #[trigger] on_horizontal_span(i, x1, x2, y) ==> map[i] == TileType::Floor
}

/// Every grid cell of the vertical span between y1 and y2 at column x holds
/// floor.
pub open spec fn v_span_floor(map: Seq<TileType>, y1: int, y2: int, x: int) -> bool {
    forall|i: int| #[trigger] on_vertical_span(i, y1, y2, x) ==> map[i] == TileType::Floor
}

/// The centers of rooms `a` and `b` are joined by an L-shaped corridor of
/// floor cells, bending at one of the two corners.
pub open spec fn l_connected(a: Rect, b: Rect, map: Seq<TileType>) -> bool {
    let ac = a.spec_center();
    let bc = b.spec_center();
    (h_span_floor(map, ac.0, bc.0, ac.1) && v_span_floor(map, ac.1, bc.1, bc.0)) || (v_span_floor(
        map,
        ac.1,
        bc.1,
        ac.0,
    ) && h_span_floor(map, ac.0, bc.0, bc.1))
}

/// Each accepted room is reachable from the one accepted just before it
/// through an L-shaped corridor of floor cells between their centers.
pub open spec fn rooms_connected(rooms: Seq<Rect>, map: Seq<TileType>) -> bool {
    forall|k: int|
        0 <= k < rooms.len() - 1 ==> l_connected(#[trigger] rooms[k], rooms[k + 1], map)
}

/// A floor-preserving map change keeps a horizontal span of floor intact.
proof fn lemma_h_span_preserved(before: Seq<TileType>, after: Seq<TileType>, x1: int, x2: int, y: int)
    requires
        forall|i: int|
            0 <= i < 4000 && before[i] == TileType::Floor ==> #[trigger] after[i]
                == TileType::Floor,
        h_span_floor(before, x1, x2, y),
    ensures
        h_span_floor(after, x1, x2, y),
{
    assert forall|i: int| #[trigger] on_horizontal_span(i, x1, x2, y) implies after[i]
        == TileType::Floor by {
        assert(before[i] == TileType::Floor);
    }
}

/// A floor-preserving map change keeps a vertical span of floor intact.
proof fn lemma_v_span_preserved(before: Seq<TileType>, after: Seq<TileType>, y1: int, y2: int, x: int)
    requires
        forall|i: int|
            0 <= i < 4000 && before[i] == TileType::Floor ==> #[trigger] after[i]
                == TileType::Floor,
        v_span_floor(before, y1, y2, x),
    ensures
        v_span_floor(after, y1, y2, x),
{
    assert forall|i: int| #[trigger] on_vertical_span(i, y1, y2, x) implies after[i]
        == TileType::Floor by {
        assert(before[i] == TileType::Floor);
    }
}

/// A floor-preserving map change keeps every corridor between consecutive
/// rooms intact.
proof fn lemma_connected_preserved(before: Seq<TileType>, after: Seq<TileType>, rooms: Seq<Rect>)
    requires
        forall|i: int|
            0 <= i < 4000 && before[i] == TileType::Floor ==> #[trigger] after[i]
                == TileType::Floor,
        rooms_connected(rooms, before),
    ensures
        rooms_connected(rooms, after),
{
    assert forall|k: int| 0 <= k < rooms.len() - 1 implies l_connected(
        #[trigger] rooms[k],
        rooms[k + 1],
        after,
    ) by {
        assert(l_connected(rooms[k], rooms[k + 1], before));
        let ac = rooms[k].spec_center();
        let bc = rooms[k + 1].spec_center();
        if h_span_floor(before, ac.0, bc.0, ac.1) && v_span_floor(before, ac.1, bc.1, bc.0) {
            lemma_h_span_preserved(before, after, ac.0, bc.0, ac.1);
            lemma_v_span_preserved(before, after, ac.1, bc.1, bc.0);
        } else {
            lemma_v_span_preserved(before, after, ac.1, bc.1, ac.0);
            lemma_h_span_preserved(before, after, ac.0, bc.0, bc.1);
        }
    }
}

/// Every accepted room's interior is carved to floor in `map`.
pub open spec fn rooms_carved(rooms: Seq<Rect>, map: Seq<TileType>) -> bool {
    forall|k: int, i: int|
        0 <= k < rooms.len() && 0 <= i < 4000 && #[trigger] idx_in_interior(rooms[k], i)
            ==> map[i] == TileType::Floor
}

/// No two accepted rooms overlap.
pub open spec fn rooms_disjoint(rooms: Seq<Rect>) -> bool {
    forall|j: int, k: int|
        0 <= j < k < rooms.len() ==> !(#[trigger] rooms[j]).spec_intersect(#[trigger] rooms[k])
}

/// A room the sampler can produce: sides in [6, 9], placed with at least one
/// cell of left and top border clear and short of the right and bottom edge.
pub open spec fn room_shape_ok(r: Rect) -> bool {
    6 <= r.x2 - r.x1 <= 9 && 6 <= r.y2 - r.y1 <= 9 && 0 <= r.x1 && r.x2 <= 77 && 0 <= r.y1
        && r.y2 <= 47
}

/// All accepted rooms have sampled shape and placement.
pub open spec fn rooms_shaped(rooms: Seq<Rect>) -> bool {
    forall|k: int| 0 <= k < rooms.len() ==> room_shape_ok(#[trigger] rooms[k])
}

/// Index `i` lies on one of the four straight spans of the two candidate
/// L-corridors between the centers of rooms `a` and `b`.
pub open spec fn on_l_corridor(a: Rect, b: Rect, i: int) -> bool {
    let ac = a.spec_center();
    let bc = b.spec_center();
    on_horizontal_span(i, ac.0, bc.0, ac.1) || on_vertical_span(i, ac.1, bc.1, bc.0)
        || on_vertical_span(i, ac.1, bc.1, ac.0) || on_horizontal_span(i, ac.0, bc.0, bc.1)
}

/// The cell at index `i` was carved: it lies in an accepted room's interior
/// or on a corridor between two consecutive accepted rooms.
pub open spec fn floor_justified(rooms: Seq<Rect>, i: int) -> bool {
    (exists|k: int| 0 <= k < rooms.len() && #[trigger] idx_in_interior(rooms[k], i)) || (
    exists|k: int| 0 <= k < rooms.len() - 1 && #[trigger] on_l_corridor(rooms[k], rooms[k + 1], i))
}

/// Floor appears only where carving put it: every floor cell of `map` lies
/// in a room interior or on a corridor of consecutive rooms.
pub open spec fn floors_justified(rooms: Seq<Rect>, map: Seq<TileType>) -> bool {
    forall|i: int|
        0 <= i < 4000 && #[trigger] map[i] == TileType::Floor ==> floor_justified(rooms, i)
}

/// Accepting one more room keeps every earlier cell's justification.
proof fn lemma_floor_justified_push(rooms: Seq<Rect>, extra: Rect, i: int)
    requires
        floor_justified(rooms, i),
    ensures
        floor_justified(rooms.push(extra), i),
{
    let nr = rooms.push(extra);
    if exists|k: int| 0 <= k < rooms.len() && #[trigger] idx_in_interior(rooms[k], i) {
        let k = choose|k: int| 0 <= k < rooms.len() && #[trigger] idx_in_interior(rooms[k], i);
        assert(nr[k] == rooms[k]);
        assert(0 <= k < nr.len() && idx_in_interior(nr[k], i));
    } else {
        let k = choose|k: int| 0 <= k < rooms.len() - 1 && #[trigger] on_l_corridor(rooms[k], rooms[k + 1], i);
        assert(nr[k] == rooms[k]);
        assert(nr[k + 1] == rooms[k + 1]);
        assert(0 <= k < nr.len() - 1 && on_l_corridor(nr[k], nr[k + 1], i));
    }
}

/// Any two distinct accepted rooms never overlap, whichever way the pair is
/// taken.
pub proof fn lemma_accepted_rooms_never_overlap(rooms: Seq<Rect>, j: int, k: int)
    requires
        rooms_disjoint(rooms),
        0 <= j < rooms.len(),
        0 <= k < rooms.len(),
        j != k,
    ensures
        !rooms[j].spec_intersect(rooms[k]),
{
    if k < j {
        crate::rect::lemma_intersect_symmetric(rooms[j], rooms[k]);
    }
}

/// All accepted rooms fit inside the grid.
pub open spec fn rooms_in_bounds(rooms: Seq<Rect>) -> bool {
    forall|k: int| 0 <= k < rooms.len() ==> (#[trigger] rooms[k]).in_map_bounds()
}

/// A dungeon of up to thirty random non-overlapping rooms carved into an
/// all-wall grid, consecutive rooms joined by L-shaped corridors.
pub fn new_map_rooms_and_corridors(rng: &mut RandomNumberGenerator) -> (r: (Vec<Rect>, Vec<
    TileType,
>))
    ensures
        r.1.len() == 4000,
        r.0.len() <= 30,
        1 <= r.0.len(),
        rooms_in_bounds(r.0@),
        rooms_shaped(r.0@),
        rooms_disjoint(r.0@),
        rooms_carved(r.0@, r.1@),
        rooms_connected(r.0@, r.1@),
        floors_justified(r.0@, r.1@),
{
    let mut map = filled_map(TileType::Wall);
    let mut rooms: Vec<Rect> = Vec::new();

    let mut i: i32 = 0;
    while i < MAX_ROOMS
        invariant
            0 <= i <= 30,
            map.len() == 4000,
            rooms.len() <= i,
            1 <= i ==> 1 <= rooms.len(),
            rooms_in_bounds(rooms@),
            rooms_shaped(rooms@),
            rooms_disjoint(rooms@),
            rooms_carved(rooms@, map@),
            rooms_connected(rooms@, map@),
            floors_justified(rooms@, map@),
        decreases 30 - i,
    {
        let w = rng_range(rng, MIN_SIZE, MAX_SIZE);
        let h = rng_range(rng, MIN_SIZE, MAX_SIZE);
        let x = rng_range(rng, 1, 80 - w - 1) - 1;
        let y = rng_range(rng, 1, 50 - h - 1) - 1;
        let new_room = Rect::new(x, y, w, h);
        proof {
            assert(room_shape_ok(new_room));
        }
        let mut ok = true;
        let mut j: usize = 0;
        while j < rooms.len()
            invariant
                j <= rooms.len(),
                rooms_in_bounds(rooms@),
                ok <==> (forall|k: int|
                    0 <= k < j ==> !new_room.spec_intersect(#[trigger] rooms@[k])),
            decreases rooms.len() - j,
        {
            if new_room.intersect(&rooms[j]) {
                ok = false;
            }
            j = j + 1;
        }
        if ok {
            let ghost m0 = map@;
            let ghost next_rooms = rooms@.push(new_room);
            apply_room_to_map(&new_room, &mut map);
            proof {
                assert forall|k: int, ii: int|
                    0 <= k < rooms@.len() && 0 <= ii < 4000 && #[trigger] idx_in_interior(
                        rooms@[k],
                        ii,
                    ) implies map@[ii] == TileType::Floor by {}
                lemma_connected_preserved(m0, map@, rooms@);
                assert(next_rooms[rooms@.len() as int] == new_room);
                assert forall|ii: int|
                    0 <= ii < 4000 && #[trigger] map@[ii] == TileType::Floor implies floor_justified(
                    next_rooms,
                    ii,
                ) by {
                    if idx_in_interior(new_room, ii) {
                        assert(0 <= rooms@.len() < next_rooms.len() && idx_in_interior(
                            next_rooms[rooms@.len() as int],
                            ii,
                        ));
                    } else {
                        assert(m0[ii] == TileType::Floor);
                        assert(floor_justified(rooms@, ii));
                        lemma_floor_justified_push(rooms@, new_room, ii);
                    }
                }
            }

            if rooms.len() != 0 {
                let new_center = new_room.center();
                let prev_center = rooms[rooms.len() - 1].center();
                let ghost m1 = map@;
                if rng_range(rng, 0, 2) == 1 {
                    apply_horizontal_tunnel(&mut map, prev_center.0, new_center.0, prev_center.1);
                    let ghost m2 = map@;
                    apply_vertical_tunnel(&mut map, prev_center.1, new_center.1, new_center.0);
                    proof {
                        lemma_floor_preserved(m1, m2, rooms@, new_room);
                        lemma_floor_preserved(m2, map@, rooms@, new_room);
                        lemma_connected_preserved(m1, m2, rooms@);
                        lemma_connected_preserved(m2, map@, rooms@);
                        assert(h_span_floor(
                            m2,
                            prev_center.0 as int,
                            new_center.0 as int,
                            prev_center.1 as int,
                        ));
                        lemma_h_span_preserved(
                            m2,
                            map@,
                            prev_center.0 as int,
                            new_center.0 as int,
                            prev_center.1 as int,
                        );
                        assert(v_span_floor(
                            map@,
                            prev_center.1 as int,
                            new_center.1 as int,
                            new_center.0 as int,
                        ));
                        assert(l_connected(rooms@[rooms@.len() - 1], new_room, map@));
                        assert(next_rooms[rooms@.len() - 1] == rooms@[rooms@.len() - 1]);
                        assert forall|ii: int|
                            0 <= ii < 4000 && #[trigger] map@[ii] == TileType::Floor
                            implies floor_justified(next_rooms, ii) by {
                            let last = rooms@.len() - 1;
                            if on_vertical_span(
                                ii,
                                prev_center.1 as int,
                                new_center.1 as int,
                                new_center.0 as int,
                            ) || on_horizontal_span(
                                ii,
                                prev_center.0 as int,
                                new_center.0 as int,
                                prev_center.1 as int,
                            ) {
                                assert(on_l_corridor(next_rooms[last], next_rooms[last + 1], ii));
                                assert(0 <= last < next_rooms.len() - 1);
                            } else {
                                assert(m2[ii] == TileType::Floor);
                                assert(m1[ii] == TileType::Floor);
                            }
                        }
                    }
                } else {
                    apply_vertical_tunnel(&mut map, prev_center.1, new_center.1, prev_center.0);
                    let ghost m2 = map@;
                    apply_horizontal_tunnel(&mut map, prev_center.0, new_center.0, new_center.1);
                    proof {
                        lemma_floor_preserved(m1, m2, rooms@, new_room);
                        lemma_floor_preserved(m2, map@, rooms@, new_room);
                        lemma_connected_preserved(m1, m2, rooms@);
                        lemma_connected_preserved(m2, map@, rooms@);
                        assert(v_span_floor(
                            m2,
                            prev_center.1 as int,
                            new_center.1 as int,
                            prev_center.0 as int,
                        ));
                        lemma_v_span_preserved(
                            m2,
                            map@,
                            prev_center.1 as int,
                            new_center.1 as int,
                            prev_center.0 as int,
                        );
                        assert(h_span_floor(
                            map@,
                            prev_center.0 as int,
                            new_center.0 as int,
                            new_center.1 as int,
                        ));
                        assert(l_connected(rooms@[rooms@.len() - 1], new_room, map@));
                        assert(next_rooms[rooms@.len() - 1] == rooms@[rooms@.len() - 1]);
                        assert forall|ii: int|
                            0 <= ii < 4000 && #[trigger] map@[ii] == TileType::Floor
                            implies floor_justified(next_rooms, ii) by {
                            let last = rooms@.len() - 1;
                            if on_horizontal_span(
                                ii,
                                prev_center.0 as int,
                                new_center.0 as int,
                                new_center.1 as int,
                            ) || on_vertical_span(
                                ii,
                                prev_center.1 as int,
                                new_center.1 as int,
                                prev_center.0 as int,
                            ) {
                                assert(on_l_corridor(next_rooms[last], next_rooms[last + 1], ii));
                                assert(0 <= last < next_rooms.len() - 1);
                            } else {
                                assert(m2[ii] == TileType::Floor);
                                assert(m1[ii] == TileType::Floor);
                            }
                        }
                    }
                }
            }

            let ghost rooms_before = rooms@;
            rooms.push(new_room);
            proof {
                assert(rooms@ == next_rooms);
                assert forall|k: int| 0 <= k < rooms@.len() - 1 implies l_connected(
                    #[trigger] rooms@[k],
                    rooms@[k + 1],
                    map@,
                ) by {
                    if k < rooms_before.len() - 1 {
                        assert(l_connected(rooms_before[k], rooms_before[k + 1], map@));
                    }
                }
                assert forall|k: int| 0 <= k < rooms@.len() implies room_shape_ok(
                    #[trigger] rooms@[k],
                ) by {
                    if k < rooms_before.len() {
                        assert(room_shape_ok(rooms_before[k]));
                    }
                }
            }
        }
        i = i + 1;
    }
    (rooms, map)
}

/// The display cell that depicts a tile: a grey period for floor, a green
/// number sign for wall, both on black.
pub open spec fn tile_cell(t: TileType) -> DisplayCell {
    match t {
        TileType::Floor => DisplayCell {
            glyph: 46,
            fg: Color { r: 128, g: 128, b: 128 },
            bg: Color { r: 0, g: 0, b: 0 },
        },
        TileType::Wall => DisplayCell {
            glyph: 35,
            fg: Color { r: 0, g: 255, b: 0 },
            bg: Color { r: 0, g: 0, b: 0 },
        },
    }
}

/// The image of a whole map: cell i depicts tile i.
pub open spec fn map_render(m: Seq<TileType>) -> Seq<DisplayCell> {
    Seq::new(4000, |i: int| tile_cell(m[i]))
}

/// Draws every tile of the map onto the display, floor as a grey period and
/// wall as a green number sign; the resulting image depends on the map alone.
pub fn draw_map(map: &Vec<TileType>, display: &mut DisplayBuffer)
    requires
        map.len() == 4000,
        old(display).wf(),
    ensures
        final(display).wf(),
        final(display).cells@ == map_render(map@),
{
    let mut y: i32 = 0;
    let mut x: i32 = 0;
    let mut i: usize = 0;
    while i < 4000
        invariant
            map.len() == 4000,
            display.wf(),
            0 <= x < 80,
            0 <= y <= 50,
            i == spec_idx(x as int, y as int),
            i <= 4000,
            y == 50 ==> x == 0,
            forall|j: int| 0 <= j < i ==> display.cells@[j] == tile_cell(map@[j]),
        decreases 4000 - i,
    {
        let tile = map[i];
        match tile {
            TileType::Floor => {
                display.set(
                    x,
                    y,
                    Color { r: 128, g: 128, b: 128 },
                    Color { r: 0, g: 0, b: 0 },
                    46,
                );
            },
            TileType::Wall => {
                display.set(x, y, Color { r: 0, g: 255, b: 0 }, Color { r: 0, g: 0, b: 0 }, 35);
            },
        }
        x = x + 1;
        if x > 79 {
            x = 0;
            y = y + 1;
        }
        i = i + 1;
    }
    proof {
        assert(display.cells@ =~= map_render(map@));
    }
}

/// Carving only ever turns cells to floor: if every floor cell of `before`
/// is still floor in `after`, the carved rooms stay carved.
proof fn lemma_floor_preserved(before: Seq<TileType>, after: Seq<TileType>, rooms: Seq<Rect>, extra: Rect)
    requires
        before.len() == 4000,
        after.len() == 4000,
        forall|i: int| 0 <= i < 4000 && before[i] == TileType::Floor ==> #[trigger] after[i] == TileType::Floor,
        rooms_carved(rooms, before),
        forall|i: int|
            0 <= i < 4000 && #[trigger] idx_in_interior(extra, i) ==> before[i] == TileType::Floor,
    ensures
        rooms_carved(rooms, after),
        forall|i: int|
            0 <= i < 4000 && #[trigger] idx_in_interior(extra, i) ==> after[i] == TileType::Floor,
{
}

} // verus!
