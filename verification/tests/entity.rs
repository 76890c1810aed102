use vollmond::entity::item::{Item, ItemType};
use vollmond::entity::player::Player;
use vollmond::entity::player_map::{
    can_walk_down as map_can_walk_down, can_walk_left as map_can_walk_left,
    can_walk_right as map_can_walk_right, can_walk_up as map_can_walk_up, destination,
    is_id_colliding, velocity, AnimationState as MapAnimation, PlayerMap,
};
use vollmond::entity::player_side::{
    can_jump_up, can_walk_down, can_walk_left, can_walk_right, distance,
    AnimationState as SideAnimation, Bump, JumpState, PlayerSide, SideReport, State,
};
use vollmond::entity::{
    detect, floored, is_clear, rounded, sample, shifted, FinePosition, IdRange, Keys, Tick,
    FINE_MAX, FINE_MIN,
};
use vollmond::scene::game::GameState;
use vollmond::tilemap::pyxeledit::{Layers, PyxelTilemap, Tile};
use vollmond::tilemap::Tilemap;
use vollmond::utils::{Rect, Vec2};

const FRAME: u64 = 16_000_000;

fn atlas() -> Rect {
    Rect::new(0, 0, 104, 352)
}

fn layer(name: &str, tiles: Vec<(i32, i32, i32)>) -> Layers {
    Layers {
        number: 0,
        tiles: tiles.into_iter().map(|(id, x, y)| Tile::new(id, x, y, false, 0, 0)).collect(),
        name: name.to_string(),
    }
}

fn map_of(wide: i64, high: i64, layers: Vec<Layers>) -> Tilemap {
    Tilemap::from_pyxeledit(atlas(), &PyxelTilemap::new(high, wide, 8, 8, layers)).unwrap()
}

fn no_keys() -> Keys {
    Keys { up: false, down: false, left: false, right: false, jump: false }
}

fn tick(keys: Keys) -> Tick {
    Tick { keys, elapsed: FRAME, ready: true }
}

fn fine(x: i64, y: i64) -> FinePosition {
    FinePosition { x, y }
}

/// An overworld of 8 by 8 tiles: a blocking tile in the cell (2, 0) of the
/// layer "map", the start in the cell (0, 0) and the entrance of the
/// cemetery in the cell (0, 3) of the layer "logic", and ice in the cell
/// (0, 5) of the layer "background".
fn overworld() -> Tilemap {
    map_of(
        8,
        8,
        vec![
            layer("logic", vec![(507, 0, 0), (509, 0, 3), (519, 4, 4)]),
            layer("map", vec![(520, 2, 0)]),
            layer("background", vec![(535, 0, 5), (537, 1, 5)]),
        ],
    )
}

#[test]
fn coordinates_are_rounded_to_the_nearest_pixel() {
    assert_eq!(rounded(0), 0);
    assert_eq!(rounded(499), 0);
    assert_eq!(rounded(500), 1);
    assert_eq!(rounded(1499), 1);
    assert_eq!(rounded(-499), 0);
    assert_eq!(rounded(-500), -1);
    assert_eq!(rounded(-1500), -2);
    assert_eq!(rounded(FINE_MAX), 2_000_000_000);
    assert_eq!(rounded(FINE_MIN), -2_000_000_000);
}

#[test]
fn coordinates_are_floored_to_their_pixel() {
    assert_eq!(floored(0), 0);
    assert_eq!(floored(999), 0);
    assert_eq!(floored(1000), 1);
    assert_eq!(floored(-1), -1);
    assert_eq!(floored(-1000), -1);
    assert_eq!(floored(-1001), -2);
    assert_eq!(floored(FINE_MIN), -2_000_000_000);
}

#[test]
fn shifted_coordinates_stay_in_range() {
    assert_eq!(shifted(100, 50), 150);
    assert_eq!(shifted(100, -250), -150);
    assert_eq!(shifted(FINE_MAX, 1), FINE_MAX);
    assert_eq!(shifted(FINE_MIN, -1), FINE_MIN);
    assert_eq!(shifted(0, i128::from(u64::MAX)), FINE_MAX);
    assert_eq!(shifted(0, -i128::from(u64::MAX)), FINE_MIN);
    assert_eq!(shifted(0, i128::MAX), FINE_MAX);
    assert_eq!(shifted(i64::MIN, i128::MIN), FINE_MIN);
    assert_eq!(shifted(i64::MAX, i128::MAX), FINE_MAX);
    assert_eq!(shifted(i64::MAX, -i128::from(i64::MAX)), 0);
}

#[test]
fn position_from_pixels() {
    assert_eq!(FinePosition::from_pixels(Vec2::new(8, -3)), fine(8000, -3000));
    assert_eq!(FinePosition::from_pixels(Vec2::new(i32::MAX, i32::MIN)), fine(FINE_MAX, FINE_MIN));
    assert_eq!(fine(8499, -3500).round(), Vec2::new(8, -4));
    assert_eq!(fine(8999, -3001).floor(), Vec2::new(8, -4));
}

#[test]
fn range_of_blocking_tiles() {
    let range = IdRange { first: 520, last: 532 };
    assert!(!range.contains(None));
    assert!(!range.contains(Some(519)));
    assert!(range.contains(Some(520)));
    assert!(range.contains(Some(532)));
    assert!(!range.contains(Some(533)));
    assert!(is_id_colliding(Some(526)));
    assert!(!is_id_colliding(Some(533)));
    assert!(!is_id_colliding(None));
}

#[test]
fn sample_reads_the_tile_under_a_pixel() {
    let map = overworld();
    assert_eq!(sample(&map, 1, 16, 0), Some(520));
    assert_eq!(sample(&map, 1, 23, 7), Some(520));
    assert_eq!(sample(&map, 1, 24, 0), None);
    assert_eq!(sample(&map, 1, -1, 0), None);
    assert_eq!(sample(&map, 1, i64::MAX, 0), None);
    assert_eq!(sample(&map, 1, 16, i64::MIN), None);
    assert_eq!(sample(&map, 99, 16, 0), None);
}

#[test]
fn both_sample_points_must_be_free() {
    let map = overworld();
    let blocking = IdRange { first: 520, last: 520 };
    let base = Vec2::new(10, 0);
    assert!(is_clear(&map, 1, base, Vec2::new(0, 0), Vec2::new(5, 7), blocking));
    assert!(!is_clear(&map, 1, base, Vec2::new(6, 0), Vec2::new(5, 7), blocking));
    assert!(!is_clear(&map, 1, base, Vec2::new(0, 0), Vec2::new(13, 7), blocking));
    assert!(!is_clear(&map, 1, base, Vec2::new(6, 0), Vec2::new(13, 7), blocking));
    assert!(is_clear(&map, 1, base, Vec2::new(14, 0), Vec2::new(14, 7), blocking));
    assert!(is_clear(&map, 0, base, Vec2::new(6, 0), Vec2::new(6, 7), blocking));
    assert!(is_clear(&map, 1, base, Vec2::new(6, 0), Vec2::new(6, 7), IdRange { first: 521, last: 532 }));
}

#[test]
fn edge_detector_fires_on_a_change_only() {
    assert_eq!(detect(None, Some(509), true), (true, Some(509)));
    assert_eq!(detect(Some(509), Some(509), true), (false, Some(509)));
    assert_eq!(detect(Some(509), None, true), (false, None));
    assert_eq!(detect(Some(509), None, false), (false, None));
    assert_eq!(detect(Some(509), Some(508), true), (true, Some(508)));
    assert_eq!(detect(Some(509), Some(507), false), (false, Some(509)));
    assert_eq!(detect(None, Some(507), false), (false, None));
}

#[test]
fn speed_goes_by_the_ground() {
    assert_eq!(velocity(None), 800);
    assert_eq!(velocity(Some(1)), 800);
    assert_eq!(velocity(Some(533)), 720);
    assert_eq!(velocity(Some(534)), 560);
    assert_eq!(velocity(Some(536)), 480);
    assert_eq!(velocity(Some(535)), 880);
    assert_eq!(velocity(Some(537)), 320);
    assert_eq!(velocity(Some(524)), 240);
}

#[test]
fn entrances_lead_to_their_places() {
    assert_eq!(destination(508), Some(GameState::HOUSE));
    assert_eq!(destination(509), Some(GameState::MapCemetery));
    assert_eq!(destination(518), Some(GameState::MapIce));
    assert_eq!(destination(517), Some(GameState::MapSand));
    assert_eq!(destination(512), Some(GameState::MapSwamp));
    assert_eq!(destination(516), Some(GameState::MapForest));
    assert_eq!(destination(513), Some(GameState::MapZelda1));
    assert_eq!(destination(514), Some(GameState::MapZelda2));
    assert_eq!(destination(515), Some(GameState::MapZelda3));
    assert_eq!(destination(519), None);
    assert_eq!(destination(507), None);
}

#[test]
fn overworld_actor_starts_on_the_spawn_tile() {
    let map = map_of(4, 4, vec![layer("logic", vec![(507, 2, 1), (507, 3, 3)])]);
    let player = PlayerMap::new(&map);
    assert_eq!(player.position(), fine(16000, 8000));
    assert_eq!(player.position_rounded(), Vec2::new(16, 8));
    assert_eq!(player.last_id(), None);
    assert_eq!(player.animation_state(), MapAnimation::StandDown);
    assert!(!player.collided());
    assert_eq!(player.source(), Some(Rect::new(0, 0, 8, 8)));
}

#[test]
fn overworld_actor_waits_for_its_starting_delay() {
    let map = overworld();
    let mut player = PlayerMap::new(&map);
    let keys = Keys { down: true, ..no_keys() };
    assert_eq!(player.update(&map, Tick { keys, elapsed: FRAME, ready: false }), None);
    assert_eq!(player.position(), fine(0, 0));
    assert_eq!(player.animation_state(), MapAnimation::StandDown);
    assert_eq!(player.update(&map, tick(keys)), None);
    assert_eq!(player.position(), fine(0, 800));
}

#[test]
fn overworld_actor_walks_a_step_per_tick() {
    let map = overworld();
    let mut player = PlayerMap::new(&map);
    player.update(&map, tick(Keys { down: true, ..no_keys() }));
    assert_eq!(player.position(), fine(0, 800));
    assert_eq!(player.animation_state(), MapAnimation::WalkDown);
    player.update(&map, tick(Keys { right: true, ..no_keys() }));
    assert_eq!(player.position(), fine(800, 800));
    assert_eq!(player.animation_state(), MapAnimation::WalkRight);
    player.update(&map, tick(Keys { up: true, ..no_keys() }));
    assert_eq!(player.position(), fine(800, 0));
    assert_eq!(player.animation_state(), MapAnimation::WalkUp);
    player.update(&map, tick(Keys { left: true, ..no_keys() }));
    assert_eq!(player.position(), fine(0, 0));
    assert_eq!(player.animation_state(), MapAnimation::WalkLeft);
}

#[test]
fn overworld_actor_walks_on_both_axes_at_once() {
    let map = overworld();
    let mut player = PlayerMap::new(&map);
    player.set_position(fine(30000, 30000));
    player.update(&map, tick(Keys { down: true, right: true, ..no_keys() }));
    assert_eq!(player.position(), fine(30800, 30800));
    assert_eq!(player.animation_state(), MapAnimation::WalkDown);
    assert!(!player.collided());
    player.update(&map, tick(Keys { up: true, left: true, ..no_keys() }));
    assert_eq!(player.position(), fine(30000, 30000));
    assert_eq!(player.animation_state(), MapAnimation::WalkUp);
}

#[test]
fn overworld_actor_prefers_up_to_down_and_left_to_right() {
    let map = overworld();
    let mut player = PlayerMap::new(&map);
    player.set_position(fine(30000, 30000));
    player.update(&map, tick(Keys { up: true, down: true, left: true, right: true, jump: false }));
    assert_eq!(player.position(), fine(29200, 29200));
    assert_eq!(player.animation_state(), MapAnimation::WalkUp);
    player.update(&map, tick(Keys { up: true, down: true, ..no_keys() }));
    assert_eq!(player.position(), fine(29200, 28400));
    player.update(&map, tick(Keys { left: true, right: true, ..no_keys() }));
    assert_eq!(player.position(), fine(28400, 28400));
    assert_eq!(player.animation_state(), MapAnimation::WalkLeft);
}

#[test]
fn overworld_actor_refused_on_one_axis_still_walks_on_the_other() {
    let map = overworld();
    let mut player = PlayerMap::new(&map);
    // right is blocked by the tile, down is free
    player.set_position(fine(9800, 0));
    player.update(&map, tick(Keys { right: true, down: true, ..no_keys() }));
    assert_eq!(player.position(), fine(9800, 800));
    assert!(player.collided());
    assert_eq!(player.animation_state(), MapAnimation::WalkDown);
    // up is blocked by the tile, left is free
    player.set_position(fine(16000, 5000));
    player.update(&map, tick(Keys { up: true, left: true, ..no_keys() }));
    assert_eq!(player.position(), fine(15200, 5000));
    assert!(player.collided());
    assert_eq!(player.animation_state(), MapAnimation::WalkLeft);
    // both are blocked: the actor stays and is seen as before
    player.set_position(fine(10600, 4400));
    player.update(&map, tick(Keys { right: true, up: true, ..no_keys() }));
    assert_eq!(player.position(), fine(10600, 4400));
    assert!(player.collided());
    assert_eq!(player.animation_state(), MapAnimation::WalkLeft);
}

#[test]
fn overworld_actor_is_slowed_and_sped_up_by_the_ground() {
    let map = overworld();
    let mut player = PlayerMap::new(&map);
    // the centre, four pixels right of and below the corner, is on the ice
    player.set_position(fine(0, 40000));
    player.update(&map, tick(Keys { right: true, ..no_keys() }));
    assert_eq!(player.position(), fine(880, 40000));
    // and now on the swamp
    player.set_position(fine(8000, 40000));
    player.update(&map, tick(Keys { right: true, ..no_keys() }));
    assert_eq!(player.position(), fine(8320, 40000));
}

#[test]
fn overworld_actor_is_stopped_by_a_blocking_tile() {
    let map = overworld();
    let mut player = PlayerMap::new(&map);
    let right = tick(Keys { right: true, ..no_keys() });
    // the leading points are five pixels right of the corner: a step that
    // ends nearest to the pixel 11 would put them on the pixel 16, the
    // first of the tile
    player.set_position(fine(9000, 0));
    player.update(&map, right);
    assert_eq!(player.position(), fine(9800, 0));
    assert!(!player.collided());
    player.update(&map, right);
    assert_eq!(player.position(), fine(9800, 0));
    assert!(player.collided());
    assert_eq!(player.animation_state(), MapAnimation::WalkRight);
    player.update(&map, right);
    assert_eq!(player.position(), fine(9800, 0));
    // the way down is free all the same
    player.update(&map, tick(Keys { down: true, ..no_keys() }));
    assert_eq!(player.position(), fine(9800, 800));
    assert!(!player.collided());
    // and so is the way back
    player.update(&map, tick(Keys { left: true, ..no_keys() }));
    assert_eq!(player.position(), fine(9000, 800));
}

#[test]
fn overworld_actor_is_stopped_if_only_one_point_is_blocked() {
    let map = overworld();
    let mut player = PlayerMap::new(&map);
    // walking right with the corner on the row 5: the upper point, on the
    // row 8, is free, and so is the lower one on the row 12
    player.set_position(fine(10600, 5000));
    player.update(&map, tick(Keys { right: true, ..no_keys() }));
    assert_eq!(player.position(), fine(11400, 5000));
    // with the corner on the row 4 the upper point is on the row 7, in the tile
    player.set_position(fine(10600, 4000));
    player.update(&map, tick(Keys { right: true, ..no_keys() }));
    assert_eq!(player.position(), fine(10600, 4000));
    assert!(player.collided());
}

#[test]
fn overworld_probes() {
    let map = overworld();
    assert!(map_can_walk_right(Vec2::new(10, 0), &map));
    assert!(!map_can_walk_right(Vec2::new(11, 0), &map));
    assert!(!map_can_walk_right(Vec2::new(18, 4), &map));
    assert!(map_can_walk_right(Vec2::new(19, 0), &map));
    assert!(map_can_walk_left(Vec2::new(22, 0), &map));
    assert!(!map_can_walk_left(Vec2::new(21, 0), &map));
    assert!(!map_can_walk_up(Vec2::new(16, 4), &map));
    assert!(map_can_walk_up(Vec2::new(16, 5), &map));
    assert!(!map_can_walk_down(Vec2::new(16, 0), &map));
    assert!(map_can_walk_down(Vec2::new(16, 1), &map));
    assert!(map_can_walk_down(Vec2::new(-100, -100), &map));
}

#[test]
fn overworld_actor_comes_to_rest_when_its_animation_has_run_out() {
    let map = overworld();
    let mut player = PlayerMap::new(&map);
    player.set_position(fine(30000, 30000));
    let walk = Tick { keys: Keys { left: true, ..no_keys() }, elapsed: 81_000_000, ready: true };
    player.update(&map, walk);
    assert_eq!(player.animation_state(), MapAnimation::WalkLeft);
    player.update(&map, walk);
    // the walk is on its second frame now; a tick of rest brings the third,
    // which does not end it, and another the fourth and last
    let rest = Tick { keys: no_keys(), elapsed: 81_000_000, ready: true };
    player.update(&map, rest);
    assert_eq!(player.animation_state(), MapAnimation::WalkLeft);
    assert_eq!(player.source(), Some(Rect::new(88, 0, 8, 8)));
    player.update(&map, rest);
    assert_eq!(player.animation_state(), MapAnimation::StandLeft);
    assert_eq!(player.source(), Some(Rect::new(24, 0, 8, 8)));
    assert_eq!(player.position(), fine(28400, 30000));
    player.update(&map, rest);
    assert_eq!(player.animation_state(), MapAnimation::StandLeft);
}

#[test]
fn entrance_is_reported_once_while_the_actor_stands_on_it() {
    let map = overworld();
    let mut player = PlayerMap::new(&map);
    player.set_position(fine(0, 24000));
    let rest = tick(no_keys());
    assert_eq!(player.update(&map, rest), Some(GameState::MapCemetery));
    assert_eq!(player.last_id(), Some(509));
    assert_eq!(player.update(&map, rest), None);
    assert_eq!(player.update(&map, rest), None);
    assert_eq!(player.last_id(), Some(509));
}

#[test]
fn entrance_is_reported_again_after_the_actor_has_left_it() {
    let map = overworld();
    let mut player = PlayerMap::new(&map);
    let rest = tick(no_keys());
    player.set_position(fine(0, 24000));
    assert_eq!(player.update(&map, rest), Some(GameState::MapCemetery));
    assert_eq!(player.update(&map, rest), None);
    player.set_position(fine(16000, 24000));
    assert_eq!(player.update(&map, rest), None);
    assert_eq!(player.last_id(), None);
    player.set_position(fine(0, 24000));
    assert_eq!(player.update(&map, rest), Some(GameState::MapCemetery));
    assert_eq!(player.update(&map, rest), None);
}

#[test]
fn tile_that_is_no_trigger_keeps_the_record() {
    let map = overworld();
    let mut player = PlayerMap::new(&map);
    let rest = tick(no_keys());
    player.set_position(fine(0, 24000));
    assert_eq!(player.update(&map, rest), Some(GameState::MapCemetery));
    // on to the start tile, which is no trigger, and back
    player.set_position(fine(0, 0));
    assert_eq!(player.update(&map, rest), None);
    assert_eq!(player.last_id(), Some(509));
    player.set_position(fine(0, 24000));
    assert_eq!(player.update(&map, rest), None);
}

#[test]
fn secret_is_recorded_and_leads_nowhere() {
    let map = overworld();
    let mut player = PlayerMap::new(&map);
    player.set_position(fine(32000, 32000));
    assert_eq!(player.update(&map, tick(no_keys())), None);
    assert_eq!(player.last_id(), Some(519));
}

#[test]
fn plain_actor_walks_by_the_time_of_the_tick() {
    let map = overworld();
    let mut player = Player::new(&map);
    assert_eq!(player.fine_position(), fine(0, 0));
    assert_eq!(player.source(), Some(Rect::new(0, 312, 8, 8)));
    assert_eq!(player.position_center(), Vec2::new(-4, -4));
    // 24 pixels in a second
    player.update_map(&map, Tick { keys: Keys { down: true, ..no_keys() }, elapsed: 500_000_000, ready: true });
    assert_eq!(player.fine_position(), fine(0, 12000));
    assert_eq!(player.position(), Vec2::new(0, 12));
    player.update_map(&map, Tick { keys: Keys { right: true, ..no_keys() }, elapsed: 16_666_667, ready: true });
    assert_eq!(player.fine_position(), fine(400, 12000));
    assert!(!player.collided());
}

#[test]
fn plain_actor_is_stopped_by_a_blocking_tile() {
    let map = overworld();
    let mut player = Player::new(&map);
    // the leading corners are eight pixels right of the corner
    let step = Tick { keys: Keys { right: true, ..no_keys() }, elapsed: 250_000_000, ready: true };
    player.update_map(&map, step);
    assert_eq!(player.fine_position(), fine(6000, 0));
    player.update_map(&map, step);
    assert_eq!(player.fine_position(), fine(6000, 0));
    assert!(player.collided());
    player.update_map(&map, Tick { keys: Keys { down: true, ..no_keys() }, elapsed: 250_000_000, ready: true });
    assert_eq!(player.fine_position(), fine(6000, 6000));
    assert!(!player.collided());
    player.update_map(&map, Tick { keys: no_keys(), elapsed: 250_000_000, ready: true });
    assert_eq!(player.fine_position(), fine(6000, 6000));
}

#[test]
fn plain_actor_refused_on_one_axis_still_walks_on_the_other() {
    let map = overworld();
    let mut player = Player::new(&map);
    let quarter = 250_000_000;
    player.update_map(&map, Tick { keys: Keys { right: true, ..no_keys() }, elapsed: quarter, ready: true });
    assert_eq!(player.fine_position(), fine(6000, 0));
    // right is blocked by the tile, down is free
    player.update_map(
        &map,
        Tick { keys: Keys { right: true, down: true, ..no_keys() }, elapsed: quarter, ready: true },
    );
    assert_eq!(player.fine_position(), fine(6000, 6000));
    assert!(player.collided());
    // both are free
    player.update_map(
        &map,
        Tick { keys: Keys { left: true, down: true, up: true, ..no_keys() }, elapsed: quarter, ready: true },
    );
    assert_eq!(player.fine_position(), fine(0, 0));
    assert!(!player.collided());
}

/// A side level of 16 by 8 tiles with a floor in the row 4, a wall in the
/// column 6 on the rows 2 and 3, an item in the cells (2, 3) and (9, 0) of
/// the layer "logic", and the exit in its cell (4, 3).
fn side_level() -> Tilemap {
    let mut floor: Vec<(i32, i32, i32)> = (0..16).map(|x| (520, x, 4)).collect();
    floor.push((520, 6, 2));
    floor.push((520, 6, 3));
    map_of(
        16,
        8,
        vec![
            layer("collision", floor),
            layer("logic", vec![(475, 2, 3), (475, 9, 0), (510, 4, 3), (478, 12, 3), (507, 0, 2)]),
        ],
    )
}

fn started(map: &mut Tilemap, position: FinePosition) -> PlayerSide {
    let mut player = PlayerSide::new();
    player.set_position(position);
    let report = player.update(map, tick(no_keys()));
    assert_eq!(
        report,
        SideReport { game_state: None, restart_timer: true, jump_sound: false, pickup_sound: false }
    );
    player
}

#[test]
fn way_made_in_a_tick() {
    assert_eq!(distance(4, 1, 16_000_000), 64);
    assert_eq!(distance(4, 21, 16_000_000), 1344);
    assert_eq!(distance(6, 21, 16_000_000), 2016);
    assert_eq!(distance(1, 15, 16_000_000), 240);
    assert_eq!(distance(4, 21, 16_666_667), 1400);
    assert_eq!(distance(4, 3, 0), 0);
    assert_eq!(distance(6, 21, u64::MAX), 126 * i128::from(u64::MAX) / 1_000_000);
    assert_eq!(distance(255, 255, u64::MAX), 65025 * i128::from(u64::MAX) / 1_000_000);
    assert_eq!(distance(0, 21, u64::MAX), 0);
}

#[test]
fn side_probes() {
    let map = side_level();
    // the floor is on the rows 32 to 39
    assert!(can_walk_down(fine(0, 15000), &map));
    assert!(!can_walk_down(fine(0, 16000), &map));
    assert!(!can_walk_down(fine(0, 16999), &map));
    // the wall is on the columns 48 to 55 and the rows 16 to 31
    assert!(can_walk_right(fine(39999, 16000), &map));
    assert!(!can_walk_right(fine(40000, 16000), &map));
    assert!(can_walk_right(fine(40000, 0), &map));
    assert!(!can_walk_left(fine(55999, 16000), &map));
    assert!(can_walk_left(fine(56000, 16000), &map));
    assert!(!can_jump_up(fine(48000, 32000), &map));
    assert!(can_jump_up(fine(48000, 40000), &map));
    assert!(can_jump_up(fine(-50000, -50000), &map));
}

#[test]
fn side_actor_is_put_into_its_first_state_by_its_first_tick() {
    let mut map = side_level();
    let mut player = PlayerSide::new();
    assert_eq!(player.state(), State::FLOOR);
    assert_eq!(player.jump_state(), JumpState::NOT);
    assert_eq!(player.animation_state(), SideAnimation::STANDRIGHT);
    assert_eq!(player.ingredients(), 0);
    assert_eq!(player.bonus(), 0);
    assert_eq!(player.fine_position(), fine(0, 0));
    player.set_position(fine(8000, 16000));
    let keys = Keys { right: true, jump: true, ..no_keys() };
    let report = player.update(&mut map, tick(keys));
    assert!(report.restart_timer);
    assert_eq!(report.game_state, None);
    assert_eq!(player.state(), State::IDLE);
    assert_eq!(player.fine_position(), fine(8000, 16000));
    // and then waits for the delay
    let report = player.update(&mut map, Tick { keys, elapsed: FRAME, ready: false });
    assert!(!report.restart_timer);
    assert_eq!(player.fine_position(), fine(8000, 16000));
    assert_eq!(player.position(), Vec2::new(8, 16));
}

#[test]
fn side_actor_runs_faster_tick_by_tick() {
    let mut map = side_level();
    let mut player = started(&mut map, fine(64000, 16000));
    let run = tick(Keys { right: true, ..no_keys() });
    let mut x = 64000;
    for speed in [1, 1, 2, 3, 5, 8, 13, 21, 21, 21] {
        let report = player.update(&mut map, run);
        x += 4 * speed * 16;
        assert_eq!(player.fine_position(), fine(x, 16000));
        assert_eq!(player.state(), State::FLOOR);
        assert_eq!(player.animation_state(), SideAnimation::RUNRIGHT);
        assert_eq!(player.bump(), Bump::Free);
        assert!(!report.jump_sound);
    }
}

#[test]
fn side_actor_slides_to_a_stop() {
    let mut map = side_level();
    let mut player = started(&mut map, fine(64000, 16000));
    player.update(&mut map, tick(Keys { right: true, ..no_keys() }));
    assert_eq!(player.fine_position(), fine(64064, 16000));
    // the landing of the tick before has ended the run, so the slide is over
    player.update(&mut map, tick(no_keys()));
    assert_eq!(player.fine_position(), fine(64064, 16000));
    assert_eq!(player.state(), State::FLOOR);
}

#[test]
fn side_actor_is_stopped_by_a_wall_and_still_falls() {
    let mut map = side_level();
    // in the air left of the wall, whose upper end is on the row 16
    let mut player = started(&mut map, fine(39990, 8000));
    let report = player.update(&mut map, tick(Keys { right: true, ..no_keys() }));
    assert!(!report.jump_sound);
    // the run of 64 would put the right side into the wall on the row 16
    assert_eq!(player.bump(), Bump::Right);
    // the actor is turned round, falls by 2000 and 16, and drifts left by 200
    assert_eq!(player.fine_position(), fine(39790, 10016));
    assert_eq!(player.jump_state(), JumpState::DOWN);
}

#[test]
fn side_actor_falls_until_it_lands() {
    let mut map = side_level();
    let mut player = started(&mut map, fine(80000, 0));
    let rest = tick(no_keys());
    let mut y = 0;
    for speed in [1, 2, 3, 5, 5, 5, 5] {
        player.update(&mut map, rest);
        y += 2000 + speed * 16;
        assert_eq!(player.fine_position(), fine(80000, y));
        assert_eq!(player.jump_state(), JumpState::DOWN);
    }
    // the seventh tick has put the feet into the floor
    assert_eq!(y, 14416);
    player.update(&mut map, rest);
    assert_eq!(player.fine_position(), fine(80000, 16496));
    player.update(&mut map, rest);
    // landed: the actor is set on the row above
    assert_eq!(player.jump_state(), JumpState::NOT);
    assert_eq!(player.state(), State::FLOOR);
    assert_eq!(player.fine_position(), fine(80000, 16000));
    player.update(&mut map, rest);
    assert_eq!(player.fine_position(), fine(80000, 16000));
}

#[test]
fn side_actor_jumps_while_the_key_is_held() {
    let mut map = side_level();
    let mut player = started(&mut map, fine(80000, 16000));
    let jump = tick(Keys { jump: true, ..no_keys() });
    let report = player.update(&mut map, jump);
    assert!(report.jump_sound);
    assert_eq!(player.jump_state(), JumpState::JUMP);
    // up by 2500 less the 15 pixels a second of the second tick of the curve
    assert_eq!(player.fine_position(), fine(80000, 16000 - 2500 + 240));
    let report = player.update(&mut map, jump);
    assert!(!report.jump_sound);
    assert_eq!(player.fine_position(), fine(80000, 13740 - 2500 + 208));
    // the key is let go: the actor hangs in the air
    player.update(&mut map, tick(no_keys()));
    assert_eq!(player.jump_state(), JumpState::AIR);
    assert_eq!(player.fine_position(), fine(80000, 8000));
}

#[test]
fn side_actor_hangs_in_the_air_before_it_falls() {
    let mut map = side_level();
    let mut player = started(&mut map, fine(80000, 16000));
    player.update(&mut map, tick(Keys { jump: true, ..no_keys() }));
    let rest = tick(no_keys());
    let mut hanging = 0;
    loop {
        player.update(&mut map, rest);
        if player.jump_state() != JumpState::AIR {
            break;
        }
        hanging += 1;
    }
    assert_eq!(hanging, 10);
    assert_eq!(player.jump_state(), JumpState::DOWN);
}

#[test]
fn side_actor_picks_up_an_item_once() {
    let mut map = side_level();
    let logic = map.get_layer_id("logic");
    // the centre is four pixels right of and below the corner
    let mut player = started(&mut map, fine(16000, 24000));
    // the start of the tick is in the air: let the actor come to rest first
    player.set_position(fine(16000, 16000));
    let report = player.update(&mut map, tick(no_keys()));
    assert_eq!(report.pickup_sound, false);
    player.set_position(fine(14000, 22000));
    let report = player.update(&mut map, tick(no_keys()));
    assert!(report.pickup_sound);
    assert_eq!(report.game_state, None);
    assert_eq!(player.ingredients(), 1);
    assert_eq!(player.bonus(), 0);
    // the item is gone from the whole layer
    assert_eq!(map.get_id_at(logic, 2, 3), None);
    assert_eq!(map.get_id_at(logic, 9, 0), None);
    assert_eq!(map.get_id_at(logic, 4, 3), Some(510));
    assert_eq!(map.get_id_at(0, 6, 2).or(map.get_id_at(1, 6, 2)), Some(520));
    player.set_position(fine(14000, 22000));
    let report = player.update(&mut map, tick(no_keys()));
    assert!(!report.pickup_sound);
    assert_eq!(player.ingredients(), 1);
}

#[test]
fn side_actor_counts_the_bonus_item_apart() {
    let mut map = side_level();
    let logic = map.get_layer_id("logic");
    let mut player = started(&mut map, fine(96000, 24000));
    let report = player.update(&mut map, tick(no_keys()));
    assert!(report.pickup_sound);
    assert_eq!(player.bonus(), 1);
    assert_eq!(player.ingredients(), 0);
    assert_eq!(map.get_id_at(logic, 12, 3), None);
    assert_eq!(map.get_id_at(logic, 2, 3), Some(475));
}

#[test]
fn side_actor_leaves_through_the_exit() {
    let mut map = side_level();
    let mut player = started(&mut map, fine(32000, 24000));
    let report = player.update(&mut map, tick(no_keys()));
    assert_eq!(report.game_state, Some(GameState::MAP));
    assert!(!report.pickup_sound);
    assert!(!report.restart_timer);
    // back in the level, the actor is put into its first state again
    let report = player.update(&mut map, tick(no_keys()));
    assert!(report.restart_timer);
    assert_eq!(report.game_state, None);
    assert_eq!(player.state(), State::IDLE);
    // and the exit takes it again as long as it stands there
    let report = player.update(&mut map, tick(no_keys()));
    assert_eq!(report.game_state, Some(GameState::MAP));
}

#[test]
fn side_actor_ignores_the_start_tile() {
    let mut map = side_level();
    let logic = map.get_layer_id("logic");
    let mut player = started(&mut map, fine(0, 16000));
    let report = player.update(&mut map, tick(no_keys()));
    assert!(!report.pickup_sound);
    assert_eq!(player.ingredients(), 0);
    assert_eq!(map.get_id_at(logic, 0, 2), Some(507));
}

#[test]
fn thing_is_found_inside_its_box() {
    let map = Tilemap::new(atlas(), 8, 8, 4, 4);
    let mut item = Item::new(ItemType::FLOWER, fine(8499, 16500), &map);
    assert_eq!(item.update(fine(8499, 16500)), Some(ItemType::FLOWER));
    assert_eq!(item.update(fine(16498, 24499)), Some(ItemType::FLOWER));
    assert_eq!(item.update(fine(16499, 16500)), None);
    assert_eq!(item.update(fine(8499, 24500)), None);
    assert_eq!(item.update(fine(8498, 16500)), None);
    assert_eq!(item.update(fine(8499, 16499)), None);
    assert_eq!(item.position(), Vec2::new(8, 17));
    assert_eq!(item.source(), Some(Rect::new(96, 0, 8, 8)));
}

#[test]
fn side_actor_is_shown_by_the_frame_of_its_state() {
    let mut map = side_level();
    let mut player = started(&mut map, fine(80000, 16000));
    assert_eq!(player.animation_state(), SideAnimation::STANDRIGHT);
    assert_eq!(player.source(), Some(Rect::new(0, 0, 16, 16)));
    let run = Tick { keys: Keys { left: true, ..no_keys() }, elapsed: 81_000_000, ready: true };
    player.update(&mut map, run);
    assert_eq!(player.animation_state(), SideAnimation::RUNLEFT);
    assert_eq!(player.source(), Some(Rect::new(0, 16, 16, 16)));
    player.update(&mut map, run);
    assert_eq!(player.source(), Some(Rect::new(16, 16, 16, 16)));
    // standing shows the second frame after half a second
    let mut other = started(&mut map, fine(80000, 16000));
    other.update(&mut map, Tick { keys: no_keys(), elapsed: 484_000_000, ready: true });
    assert_eq!(other.source(), Some(Rect::new(0, 0, 16, 16)));
    other.update(&mut map, Tick { keys: no_keys(), elapsed: 1, ready: true });
    assert_eq!(other.source(), Some(Rect::new(0, 32, 16, 16)));
}
