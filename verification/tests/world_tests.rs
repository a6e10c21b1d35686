use roguelike::components::Color;
use roguelike::components::Player;
use roguelike::components::Position;
use roguelike::components::Renderable;
use roguelike::display::DisplayBuffer;
use roguelike::map::filled_map;
use roguelike::map::xy_idx;
use roguelike::map::TileType;
use roguelike::player::player_input;
use roguelike::player::try_move_player;
use roguelike::player::InputKey;
use roguelike::state::render_entities;
use roguelike::state::State;
use roguelike::world::World;

fn yellow() -> Color {
    Color { r: 255, g: 255, b: 0 }
}

fn black() -> Color {
    Color { r: 0, g: 0, b: 0 }
}

fn player_at(x: i32, y: i32, map: Vec<TileType>) -> (World, usize) {
    let mut world = World::new();
    world.insert_map(map);
    let id = world.create_entity(
        Some(Position { x, y }),
        Some(Renderable { glyph: 64, fg: yellow(), bg: black() }),
        Some(Player {}),
    );
    (world, id)
}

#[test]
fn move_onto_floor_commits_delta() {
    let (mut world, id) = player_at(10, 10, filled_map(TileType::Floor));
    try_move_player(1, 0, &mut world);
    assert_eq!(world.get_position(id), Some(Position { x: 11, y: 10 }));
    try_move_player(0, 1, &mut world);
    assert_eq!(world.get_position(id), Some(Position { x: 11, y: 11 }));
}

#[test]
fn move_into_wall_changes_nothing() {
    let mut map = filled_map(TileType::Floor);
    map[xy_idx(11, 10)] = TileType::Wall;
    let (mut world, id) = player_at(10, 10, map);
    try_move_player(1, 0, &mut world);
    assert_eq!(world.get_position(id), Some(Position { x: 10, y: 10 }));
}

#[test]
fn clamp_absorbs_move_off_the_left_edge() {
    let (mut world, id) = player_at(0, 25, filled_map(TileType::Floor));
    try_move_player(-1, 0, &mut world);
    assert_eq!(world.get_position(id), Some(Position { x: 0, y: 25 }));
}

#[test]
fn clamp_absorbs_moves_off_every_edge() {
    let (mut world, id) = player_at(79, 49, filled_map(TileType::Floor));
    try_move_player(1, 0, &mut world);
    assert_eq!(world.get_position(id), Some(Position { x: 79, y: 49 }));
    try_move_player(0, 1, &mut world);
    assert_eq!(world.get_position(id), Some(Position { x: 79, y: 49 }));
}

#[test]
fn entities_without_player_tag_do_not_move() {
    let mut world = World::new();
    world.insert_map(filled_map(TileType::Floor));
    let bystander = world.create_entity(
        Some(Position { x: 5, y: 5 }),
        Some(Renderable { glyph: 1, fg: yellow(), bg: black() }),
        None,
    );
    let hero = world.create_entity(Some(Position { x: 10, y: 10 }), None, Some(Player {}));
    try_move_player(1, 1, &mut world);
    assert_eq!(world.get_position(bystander), Some(Position { x: 5, y: 5 }));
    assert_eq!(world.get_position(hero), Some(Position { x: 11, y: 11 }));
}

#[test]
fn key_mapping_moves_on_all_bindings() {
    let left = [InputKey::Left, InputKey::Numpad4, InputKey::H];
    for key in left {
        let (world, id) = player_at(10, 10, filled_map(TileType::Floor));
        let mut state = State { ecs: world };
        player_input(&mut state, Some(key));
        assert_eq!(state.ecs.get_position(id), Some(Position { x: 9, y: 10 }));
    }
    let cases = [
        (InputKey::Right, 11, 10),
        (InputKey::L, 11, 10),
        (InputKey::Numpad6, 11, 10),
        (InputKey::Up, 10, 9),
        (InputKey::K, 10, 9),
        (InputKey::Numpad8, 10, 9),
        (InputKey::Down, 10, 11),
        (InputKey::J, 10, 11),
        (InputKey::Numpad2, 10, 11),
    ];
    for (key, x, y) in cases {
        let (world, id) = player_at(10, 10, filled_map(TileType::Floor));
        let mut state = State { ecs: world };
        player_input(&mut state, Some(key));
        assert_eq!(state.ecs.get_position(id), Some(Position { x, y }));
    }
}

#[test]
fn unrecognized_or_absent_key_is_a_no_op() {
    let (world, id) = player_at(10, 10, filled_map(TileType::Floor));
    let mut state = State { ecs: world };
    player_input(&mut state, None);
    assert_eq!(state.ecs.get_position(id), Some(Position { x: 10, y: 10 }));
    player_input(&mut state, Some(InputKey::Other));
    assert_eq!(state.ecs.get_position(id), Some(Position { x: 10, y: 10 }));
}

#[test]
fn render_joins_only_fully_equipped_entities() {
    let mut world = World::new();
    world.insert_map(filled_map(TileType::Floor));
    world.create_entity(Some(Position { x: 3, y: 4 }), None, None);
    world.create_entity(
        None,
        Some(Renderable { glyph: 2, fg: yellow(), bg: black() }),
        None,
    );
    world.create_entity(
        Some(Position { x: 7, y: 8 }),
        Some(Renderable { glyph: 64, fg: yellow(), bg: black() }),
        None,
    );
    let mut display = DisplayBuffer::new();
    let blank = display.cells[0];
    render_entities(&world, &mut display);
    assert_eq!(display.cells[xy_idx(3, 4)], blank);
    assert_eq!(display.cells[xy_idx(7, 8)].glyph, 64);
    assert_eq!(display.cells[xy_idx(7, 8)].fg, yellow());
    let drawn = display.cells.iter().filter(|c| c.glyph == 64).count();
    assert_eq!(drawn, 1);
}

#[test]
fn later_entity_overwrites_earlier_at_same_cell() {
    let mut world = World::new();
    world.insert_map(filled_map(TileType::Floor));
    world.create_entity(
        Some(Position { x: 7, y: 8 }),
        Some(Renderable { glyph: 64, fg: yellow(), bg: black() }),
        None,
    );
    world.create_entity(
        Some(Position { x: 7, y: 8 }),
        Some(Renderable { glyph: 65, fg: yellow(), bg: black() }),
        None,
    );
    let mut display = DisplayBuffer::new();
    render_entities(&world, &mut display);
    assert_eq!(display.cells[xy_idx(7, 8)].glyph, 65);
}
