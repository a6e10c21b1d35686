//! The world registry: entities as dense ids over parallel component
//! tables, plus the shared tile grid resource written once at startup.

use vstd::prelude::*;

use crate::components::Player;
use crate::components::Position;
use crate::components::Renderable;
use crate::map::filled_map;
use crate::map::TileType;

verus! {

/// All entities and their components, and the shared map. Entity `e` owns
/// slot `e` of each table; a `None` slot means the entity lacks that
/// component.
pub struct World {
    pub positions: Vec<Option<Position>>,
    pub renderables: Vec<Option<Renderable>>,
    pub players: Vec<Option<Player>>,
    pub map: Vec<TileType>,
}

impl World {
    /// The component tables stay parallel and the grid keeps its 4000 cells.
    pub open spec fn wf(self) -> bool {
        self.renderables@.len() == self.positions@.len() && self.players@.len()
            == self.positions@.len() && self.map@.len() == 4000
    }

    /// How many entities have been created.
    pub open spec fn num_entities(self) -> nat {
        self.positions@.len()
    }

    /// An empty world whose map starts as solid wall.
    pub fn new() -> (w: World)
        ensures
            w.wf(),
            w.num_entities() == 0,
            forall|i: int| 0 <= i < 4000 ==> w.map@[i] == TileType::Wall,
    {
        World {
            positions: Vec::new(),
            renderables: Vec::new(),
            players: Vec::new(),
            map: filled_map(TileType::Wall),
        }
    }

    /// Installs a generated grid as the world's shared map resource.
    pub fn insert_map(&mut self, map: Vec<TileType>)
        requires
            old(self).wf(),
            map.len() == 4000,
        ensures
            final(self).wf(),
            final(self).map@ == map@,
            final(self).positions@ == old(self).positions@,
            final(self).renderables@ == old(self).renderables@,
            final(self).players@ == old(self).players@,
    {
        self.map = map;
    }

    /// Creates an entity carrying the given components and returns its id.
    pub fn create_entity(
        &mut self,
        pos: Option<Position>,
        rend: Option<Renderable>,
        player: Option<Player>,
    ) -> (id: usize)
        requires
            old(self).wf(),
        ensures
            final(self).wf(),
            id == old(self).num_entities(),
            final(self).num_entities() == old(self).num_entities() + 1,
            final(self).positions@ == old(self).positions@.push(pos),
            final(self).renderables@ == old(self).renderables@.push(rend),
            final(self).players@ == old(self).players@.push(player),
            final(self).map@ == old(self).map@,
    {
        let id = self.positions.len();
        self.positions.push(pos);
        self.renderables.push(rend);
        self.players.push(player);
        id
    }

    /// The position component of entity `id`, if it carries one.
    pub fn get_position(&self, id: usize) -> (p: Option<Position>)
        requires
            id < self.num_entities(),
        ensures
            p == self.positions@[id as int],
    {
        self.positions[id]
    }

    /// The renderable component of entity `id`, if it carries one.
    pub fn get_renderable(&self, id: usize) -> (r: Option<Renderable>)
        requires
            id < self.num_entities(),
            self.wf(),
        ensures
            r == self.renderables@[id as int],
    {
        self.renderables[id]
    }

    /// The player tag of entity `id`, if it carries one.
    pub fn get_player(&self, id: usize) -> (p: Option<Player>)
        requires
            id < self.num_entities(),
            self.wf(),
        ensures
            p == self.players@[id as int],
    {
        self.players[id]
    }
}

} // verus!
