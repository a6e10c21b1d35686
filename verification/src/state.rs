//! The game state and the per-frame tick: input, then a full redraw of map
//! and entities into the display buffer.

use vstd::prelude::*;

use crate::components::Position;
use crate::components::Renderable;
use crate::display::DisplayBuffer;
use crate::display::DisplayCell;
use crate::map::draw_map;
use crate::map::map_render;
use crate::map::spec_idx;
use crate::player::player_input;
use crate::player::positions_after_move;
use crate::player::spec_key_delta;
use crate::player::InputKey;
use crate::world::World;

verus! {

/// The display cell an entity's renderable paints.
pub open spec fn renderable_cell(r: Renderable) -> DisplayCell {
    DisplayCell { glyph: r.glyph, fg: r.fg, bg: r.bg }
}

/// The write an entity contributes to the display: its cell index and
/// painted cell when it has both a position and a renderable and its
/// position lies on the display, nothing otherwise.
pub open spec fn entity_cell_write(pos: Option<Position>, rend: Option<Renderable>) -> Option<
    (int, DisplayCell),
> {
    match (pos, rend) {
        (Some(p), Some(r)) => if 0 <= p.x < 80 && 0 <= p.y < 50 {
            Some((spec_idx(p.x as int, p.y as int), renderable_cell(r)))
        } else {
            None
        },
        _ => None,
    }
}

/// The display after entities 0 through n-1 have painted over `base`, in id
/// order: a later entity at the same cell overwrites an earlier one.
pub open spec fn render_overlay(base: Seq<DisplayCell>, w: World, n: int) -> Seq<DisplayCell>
    decreases n,
{
    if n <= 0 {
        base
    } else {
        let prev = render_overlay(base, w, n - 1);
        match entity_cell_write(w.positions@[n - 1], w.renderables@[n - 1]) {
            Some(wr) => prev.update(wr.0, wr.1),
            None => prev,
        }
    }
}

/// Painting entities never changes the display's size.
pub proof fn lemma_render_overlay_len(base: Seq<DisplayCell>, w: World, n: int)
    requires
        base.len() == 4000,
    ensures
        render_overlay(base, w, n).len() == base.len(),
    decreases n,
{
    if n > 0 {
        lemma_render_overlay_len(base, w, n - 1);
        match entity_cell_write(w.positions@[n - 1], w.renderables@[n - 1]) {
            Some(wr) => {
                assert(0 <= wr.0 < 4000);
            },
            None => {},
        }
    }
}

/// Entity `e` paints display index `i` this frame.
pub open spec fn entity_drawn_at(w: World, e: int, i: int) -> bool {
    match entity_cell_write(w.positions@[e], w.renderables@[e]) {
        Some(wr) => wr.0 == i,
        None => false,
    }
}

/// A cell that no entity with both a position and a renderable occupies
/// keeps the base image: an entity missing either component is never drawn.
pub proof fn lemma_undrawn_cell_unchanged(base: Seq<DisplayCell>, w: World, n: int, i: int)
    requires
        base.len() == 4000,
        0 <= i < base.len(),
        forall|e: int| 0 <= e < n ==> !entity_drawn_at(w, e, i),
    ensures
        render_overlay(base, w, n)[i] == base[i],
    decreases n,
{
    if n > 0 {
        lemma_undrawn_cell_unchanged(base, w, n - 1, i);
        lemma_render_overlay_len(base, w, n - 1);
        assert(!entity_drawn_at(w, n - 1, i));
        match entity_cell_write(w.positions@[n - 1], w.renderables@[n - 1]) {
            Some(wr) => {
                assert(0 <= wr.0 < 4000 && wr.0 != i);
            },
            None => {},
        }
    }
}

/// An entity with both components whose cell no later entity paints is drawn
/// exactly once, at its current position, with its own glyph and colors.
pub proof fn lemma_entity_drawn_at_its_position(
    base: Seq<DisplayCell>,
    w: World,
    n: int,
    e: int,
)
    requires
        base.len() == 4000,
        0 <= e < n <= w.num_entities(),
        entity_cell_write(w.positions@[e], w.renderables@[e]) is Some,
        forall|e2: int|
            e < e2 < n ==> !entity_drawn_at(
                w,
                e2,
                entity_cell_write(w.positions@[e], w.renderables@[e])->Some_0.0,
            ),
    ensures
        render_overlay(base, w, n)[entity_cell_write(w.positions@[e], w.renderables@[e])->Some_0.0]
            == entity_cell_write(w.positions@[e], w.renderables@[e])->Some_0.1,
    decreases n,
{
    lemma_render_overlay_len(base, w, n - 1);
    if n - 1 == e {
    } else {
        lemma_entity_drawn_at_its_position(base, w, n - 1, e);
        assert(!entity_drawn_at(w, n - 1, entity_cell_write(w.positions@[e], w.renderables@[e])->Some_0.0));
    }
}

/// Draws every entity having both a position and a renderable onto the
/// display, in entity-id order.
pub fn render_entities(w: &World, display: &mut DisplayBuffer)
    requires
        w.wf(),
        old(display).wf(),
    ensures
        final(display).wf(),
        final(display).cells@ == render_overlay(
            old(display).cells@,
            *w,
            w.num_entities() as int,
        ),
{
    let ghost base = display.cells@;
    let n = w.positions.len();
    let mut e: usize = 0;
    while e < n
        invariant
            w.wf(),
            display.wf(),
            e <= n,
            n == w.num_entities(),
            base.len() == 4000,
            display.cells@ == render_overlay(base, *w, e as int),
        decreases n - e,
    {
        let pos = w.positions[e];
        let rend = w.renderables[e];
        if pos.is_some() && rend.is_some() {
            let p = pos.unwrap();
            let r = rend.unwrap();
            display.set(p.x, p.y, r.fg, r.bg, r.glyph);
        }
        e = e + 1;
    }
}

/// The full image of one frame: the rendered map with all entities painted
/// over it; a function of the world alone.
pub open spec fn frame_image(w: World) -> Seq<DisplayCell> {
    render_overlay(map_render(w.map@), w, w.num_entities() as int)
}

/// Rendering is idempotent: two frames drawn from the same unchanged world
/// produce identical display buffers.
pub proof fn lemma_frame_deterministic(w: World, b1: Seq<DisplayCell>, b2: Seq<DisplayCell>)
    requires
        b1 == frame_image(w),
        b2 == frame_image(w),
    ensures
        b1 == b2,
{
}

/// The running game: the world of entities, components and the shared map.
pub struct State {
    pub ecs: World,
}

impl State {
    /// One frame: apply the frame's key event as a player move, clear the
    /// display, draw the map, then draw the entities over it.
    pub fn tick(&mut self, key: Option<InputKey>, display: &mut DisplayBuffer)
        requires
            old(self).ecs.wf(),
            old(display).wf(),
        ensures
            final(self).ecs.wf(),
            final(self).ecs.positions@ == (match spec_key_delta(key) {
                Some(d) => positions_after_move(old(self).ecs, d.0, d.1),
                None => old(self).ecs.positions@,
            }),
            final(self).ecs.renderables@ == old(self).ecs.renderables@,
            final(self).ecs.players@ == old(self).ecs.players@,
            final(self).ecs.map@ == old(self).ecs.map@,
            final(display).wf(),
            final(display).cells@ == frame_image(final(self).ecs),
    {
        player_input(self, key);
        display.cls();
        draw_map(&self.ecs.map, display);
        render_entities(&self.ecs, display);
    }
}

} // verus!
