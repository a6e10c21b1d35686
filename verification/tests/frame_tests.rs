use roguelike::components::Color;
use roguelike::components::Player;
use roguelike::components::Position;
use roguelike::components::Renderable;
use roguelike::display::DisplayBuffer;
use roguelike::map::draw_map;
use roguelike::map::filled_map;
use roguelike::map::new_map_test;
use roguelike::map::xy_idx;
use roguelike::map::TileType;
use rltk::RandomNumberGenerator;
use roguelike::state::State;
use roguelike::world::World;

#[test]
fn draw_map_paints_each_tile_kind() {
    let mut map = filled_map(TileType::Floor);
    map[xy_idx(0, 0)] = TileType::Wall;
    let mut display = DisplayBuffer::new();
    draw_map(&map, &mut display);
    let wall = display.cells[xy_idx(0, 0)];
    assert_eq!(wall.glyph, 35);
    assert_eq!(wall.fg, Color { r: 0, g: 255, b: 0 });
    assert_eq!(wall.bg, Color { r: 0, g: 0, b: 0 });
    let floor = display.cells[xy_idx(1, 0)];
    assert_eq!(floor.glyph, 46);
    assert_eq!(floor.fg, Color { r: 128, g: 128, b: 128 });
    assert_eq!(floor.bg, Color { r: 0, g: 0, b: 0 });
}

#[test]
fn drawing_twice_with_no_change_gives_the_same_buffer() {
    let mut rng = RandomNumberGenerator::seeded(99);
    let map = new_map_test(&mut rng);
    let mut first = DisplayBuffer::new();
    draw_map(&map, &mut first);
    let mut second = DisplayBuffer::new();
    draw_map(&map, &mut second);
    assert_eq!(first.cells, second.cells);

    draw_map(&map, &mut second);
    assert_eq!(first.cells, second.cells);
}

#[test]
fn tick_moves_player_and_draws_frame() {
    let mut world = World::new();
    world.insert_map(filled_map(TileType::Floor));
    let id = world.create_entity(
        Some(Position { x: 40, y: 25 }),
        Some(Renderable {
            glyph: 64,
            fg: Color { r: 255, g: 255, b: 0 },
            bg: Color { r: 0, g: 0, b: 0 },
        }),
        Some(Player {}),
    );
    let mut state = State { ecs: world };
    let mut display = DisplayBuffer::new();
    state.tick(Some(roguelike::player::InputKey::Right), &mut display);
    assert_eq!(state.ecs.get_position(id), Some(Position { x: 41, y: 25 }));
    assert_eq!(display.cells[xy_idx(41, 25)].glyph, 64);
    assert_eq!(display.cells[xy_idx(40, 25)].glyph, 46);
}

#[test]
fn tick_twice_with_no_input_gives_identical_frames() {
    let mut world = World::new();
    world.insert_map(filled_map(TileType::Floor));
    world.create_entity(
        Some(Position { x: 10, y: 10 }),
        Some(Renderable {
            glyph: 64,
            fg: Color { r: 255, g: 255, b: 0 },
            bg: Color { r: 0, g: 0, b: 0 },
        }),
        Some(Player {}),
    );
    let mut state = State { ecs: world };
    let mut first = DisplayBuffer::new();
    state.tick(None, &mut first);
    let mut second = DisplayBuffer::new();
    state.tick(None, &mut second);
    assert_eq!(first.cells, second.cells);
}
