use vollmond::tilemap::pyxeledit::{Layers, PyxelTilemap, Tile as PyxelTile};
use vollmond::tilemap::{
    check_atlas, get_tile_rectangles, DrawCommand, Rotation, Tile, Tilemap, NO_LAYER,
};
use vollmond::utils::{Color, Rect, Vec2};

fn atlas() -> Rect {
    Rect::new(0, 0, 104, 352)
}

fn layer(name: &str, tiles: Vec<PyxelTile>) -> Layers {
    Layers { number: 0, tiles, name: name.to_string() }
}

fn placed(id: i32, x: i32, y: i32) -> PyxelTile {
    PyxelTile::new(id, x, y, false, 0, 0)
}

/// A map of 4 by 3 tiles of 8 by 8 pixels with the layers, bottom first,
/// "map", "logic" and "sky".
fn sample_map() -> Tilemap {
    let layers = vec![
        layer("sky", vec![placed(3, 0, 0)]),
        layer("logic", vec![placed(507, 1, 1), placed(475, 3, 2), placed(475, 0, 2)]),
        layer("map", vec![placed(520, 2, 0), placed(5, 0, 0), placed(-1, 1, 0)]),
    ];
    let authored = PyxelTilemap::new(3, 4, 8, 8, layers);
    Tilemap::from_pyxeledit(atlas(), &authored).unwrap()
}

#[test]
fn catalog_holds_rows_times_columns_tiles() {
    let catalog = get_tile_rectangles(atlas(), 8, 8);
    assert_eq!(catalog.len(), 44 * 13);
    for id in 0..(44 * 13) {
        assert!(catalog.contains_key(&id));
    }
    assert!(!catalog.contains_key(&(44 * 13)));
}

#[test]
fn catalog_numbers_tiles_row_by_row() {
    let catalog = get_tile_rectangles(atlas(), 8, 8);
    assert_eq!(catalog[&0], Rect::new(0, 0, 8, 8));
    assert_eq!(catalog[&1], Rect::new(8, 0, 8, 8));
    assert_eq!(catalog[&12], Rect::new(96, 0, 8, 8));
    assert_eq!(catalog[&13], Rect::new(0, 8, 8, 8));
    assert_eq!(catalog[&507], Rect::new(0, 312, 8, 8));
    assert_eq!(catalog[&571], Rect::new(96, 344, 8, 8));
    for id in 0..572u32 {
        let row = (id / 13) as i32;
        let column = (id % 13) as i32;
        assert_eq!(catalog[&id], Rect::new(column * 8, row * 8, 8, 8));
    }
}

#[test]
fn catalog_of_tiles_that_are_not_square() {
    // 3 columns of 16 pixels, 5 rows of 4 pixels
    let catalog = get_tile_rectangles(Rect::new(0, 0, 48, 20), 16, 4);
    assert_eq!(catalog.len(), 15);
    assert_eq!(catalog[&2], Rect::new(32, 0, 16, 4));
    assert_eq!(catalog[&3], Rect::new(0, 4, 16, 4));
    assert_eq!(catalog[&14], Rect::new(32, 16, 16, 4));
}

#[test]
fn catalog_starts_at_the_origin_of_the_atlas() {
    let catalog = get_tile_rectangles(Rect::new(100, 200, 16, 16), 8, 8);
    assert_eq!(catalog.len(), 4);
    assert_eq!(catalog[&0], Rect::new(100, 200, 8, 8));
    assert_eq!(catalog[&1], Rect::new(108, 200, 8, 8));
    assert_eq!(catalog[&2], Rect::new(100, 208, 8, 8));
    assert_eq!(catalog[&3], Rect::new(108, 208, 8, 8));
}

#[test]
fn catalog_leaves_out_what_is_no_whole_tile() {
    let catalog = get_tile_rectangles(Rect::new(0, 0, 23, 15), 8, 8);
    assert_eq!(catalog.len(), 2);
    assert_eq!(catalog[&1], Rect::new(8, 0, 8, 8));
    assert_eq!(get_tile_rectangles(Rect::new(0, 0, 7, 7), 8, 8).len(), 0);
    assert_eq!(get_tile_rectangles(Rect::new(0, 0, -8, 8), 8, 8).len(), 0);
}

#[test]
fn atlas_check_refuses_what_cannot_be_cut() {
    assert!(check_atlas(atlas(), 8, 8));
    assert!(!check_atlas(atlas(), 0, 8));
    assert!(!check_atlas(atlas(), 8, -1));
    assert!(!check_atlas(Rect::new(i32::MAX, 0, 8, 8), 8, 8));
    assert!(!check_atlas(Rect::new(0, 0, i32::MAX, i32::MAX), 1, 1));
}

#[test]
fn new_map_has_one_empty_layer() {
    let map = Tilemap::new(atlas(), 8, 8, 13, 44);
    assert_eq!(map.get_layer_name(0), "");
    assert_eq!(map.get_layer_name(1), "");
    assert_eq!(map.get_layer_id(""), 0);
    for y in 0..44 {
        for x in 0..13 {
            assert_eq!(map.get_id_at(0, x, y), None);
        }
    }
    assert_eq!(map.get_clip_from_id(14), Rect::new(8, 8, 8, 8));
    assert!(map.has_clip(571));
    assert!(!map.has_clip(572));
}

#[test]
fn layer_is_found_by_its_name() {
    let map = sample_map();
    assert_eq!(map.get_layer_id("map"), 0);
    assert_eq!(map.get_layer_id("logic"), 1);
    assert_eq!(map.get_layer_id("sky"), 2);
    assert_eq!(map.get_layer_id("front"), NO_LAYER);
    assert_eq!(NO_LAYER, 99);
    assert_eq!(map.get_layer_name(1), "logic");
    assert_eq!(map.get_layer_name(3), "");
    assert_eq!(map.get_layer_name(NO_LAYER), "");
}

#[test]
fn first_of_two_layers_of_a_name_is_found() {
    let layers = vec![layer("a", vec![]), layer("b", vec![]), layer("a", vec![])];
    let authored = PyxelTilemap::new(1, 1, 8, 8, layers);
    let map = Tilemap::from_pyxeledit(atlas(), &authored).unwrap();
    assert_eq!(map.get_layer_id("a"), 0);
    assert_eq!(map.get_layer_id("b"), 1);
}

#[test]
fn tile_is_found_by_its_cell() {
    let map = sample_map();
    assert_eq!(map.get_id_at(0, 2, 0), Some(520));
    assert_eq!(map.get_id_at(0, 0, 0), Some(5));
    assert_eq!(map.get_id_at(0, 1, 0), None);
    assert_eq!(map.get_id_at(1, 1, 1), Some(507));
    assert_eq!(map.get_id_at(0, 4, 0), None);
    assert_eq!(map.get_id_at(0, 0, 3), None);
    assert_eq!(map.get_id_at(3, 0, 0), None);
    assert_eq!(map.get_id_at(NO_LAYER, 0, 0), None);
    assert_eq!(map.get_id_at(0, usize::MAX, usize::MAX), None);
}

#[test]
fn tile_is_found_by_a_pixel_of_its_cell() {
    let map = sample_map();
    assert_eq!(map.get_id_at_position(0, Vec2::new(16, 0)), Some(520));
    assert_eq!(map.get_id_at_position(0, Vec2::new(23, 7)), Some(520));
    assert_eq!(map.get_id_at_position(0, Vec2::new(24, 0)), None);
    assert_eq!(map.get_id_at_position(0, Vec2::new(15, 0)), None);
    assert_eq!(map.get_id_at_position(0, Vec2::new(16, 8)), None);
    assert_eq!(map.get_id_at_position(1, Vec2::new(12, 12)), Some(507));
}

#[test]
fn pixel_outside_the_map_finds_nothing() {
    let map = sample_map();
    assert_eq!(map.get_id_at_position(0, Vec2::new(-1, 0)), None);
    assert_eq!(map.get_id_at_position(0, Vec2::new(0, -1)), None);
    assert_eq!(map.get_id_at_position(0, Vec2::new(-8, -8)), None);
    assert_eq!(map.get_id_at_position(0, Vec2::new(32, 0)), None);
    assert_eq!(map.get_id_at_position(0, Vec2::new(0, 24)), None);
    assert_eq!(map.get_id_at_position(0, Vec2::new(i32::MAX, i32::MAX)), None);
    assert_eq!(map.get_id_at_position(0, Vec2::new(i32::MIN, i32::MIN)), None);
    assert_eq!(map.get_id_at_position(NO_LAYER, Vec2::new(0, 0)), None);
}

#[test]
fn positions_of_a_tile_come_row_by_row() {
    let map = sample_map();
    assert_eq!(map.get_all_position_from_id(1, 475), vec![Vec2::new(0, 16), Vec2::new(24, 16)]);
    assert_eq!(map.get_all_position_from_id(1, 507), vec![Vec2::new(8, 8)]);
    assert_eq!(map.get_all_position_from_id(1, 1), Vec::<Vec2>::new());
    assert_eq!(map.get_all_position_from_id(NO_LAYER, 475), Vec::<Vec2>::new());
    assert_eq!(map.get_all_position_from_id(0, 475), Vec::<Vec2>::new());
}

#[test]
fn end_to_end_two_by_two_map() {
    let layers = vec![layer("logic", vec![placed(5, 0, 0)])];
    let authored = PyxelTilemap::new(2, 2, 8, 8, layers);
    let map = Tilemap::from_pyxeledit(atlas(), &authored).unwrap();
    let logic = map.get_layer_id("logic");
    assert_eq!(map.get_all_position_from_id(logic, 5), vec![Vec2::new(0, 0)]);
    assert_eq!(map.get_id_at_position(logic, Vec2::new(4, 4)), Some(5));
    assert_eq!(map.get_id_at_position(logic, Vec2::new(12, 12)), None);
    assert_eq!(map.get_id_at_position(logic, Vec2::new(12, 4)), None);
    assert_eq!(map.get_id_at_position(logic, Vec2::new(4, 12)), None);
}

#[test]
fn replace_gives_every_such_tile_the_new_identifier() {
    let mut map = sample_map();
    map.replace_all_tileid(1, 475, Some(476));
    assert_eq!(map.get_id_at(1, 3, 2), Some(476));
    assert_eq!(map.get_id_at(1, 0, 2), Some(476));
    assert_eq!(map.get_id_at(1, 1, 1), Some(507));
    assert_eq!(map.get_id_at(0, 2, 0), Some(520));
    assert_eq!(map.get_all_position_from_id(1, 475), Vec::<Vec2>::new());
}

#[test]
fn replace_by_nothing_removes_every_such_tile() {
    let mut map = sample_map();
    map.replace_all_tileid(1, 475, None);
    assert_eq!(map.get_id_at(1, 3, 2), None);
    assert_eq!(map.get_id_at(1, 0, 2), None);
    assert_eq!(map.get_id_at(1, 1, 1), Some(507));
    assert_eq!(map.get_id_at(0, 0, 0), Some(5));
}

#[test]
fn replace_on_a_missing_layer_changes_nothing() {
    let mut map = sample_map();
    map.replace_all_tileid(NO_LAYER, 475, None);
    map.replace_all_tileid(7, 520, Some(1));
    assert_eq!(map.get_id_at(1, 3, 2), Some(475));
    assert_eq!(map.get_id_at(0, 2, 0), Some(520));
}

#[test]
fn set_by_pixel_fills_an_empty_cell() {
    let mut map = sample_map();
    map.set_tileid_at(0, Some(9), Vec2::new(29, 17));
    assert_eq!(map.get_id_at(0, 3, 2), Some(9));
    let commands = map.draw(Vec2::new(0, 0), Some(0)).unwrap();
    let last = commands[commands.len() - 1];
    assert_eq!(last.x, 24);
    assert_eq!(last.y, 16);
    assert_eq!(last.dest_size, Vec2::new(8, 8));
    assert_eq!(last.rotation, Rotation::Deg0);
    assert_eq!(last.source, Rect::new(72, 0, 8, 8));
}

#[test]
fn set_by_pixel_renames_a_tile_in_place() {
    let layers =
        vec![layer("map", vec![PyxelTile::new(5, 1, 1, true, 0, 3), PyxelTile::new(6, 0, 0, false, 0, 0)])];
    let authored = PyxelTilemap::new(2, 2, 8, 8, layers);
    let mut map = Tilemap::from_pyxeledit(atlas(), &authored).unwrap();
    map.set_tileid_at(0, Some(7), Vec2::new(8, 15));
    assert_eq!(map.get_id_at(0, 1, 1), Some(7));
    assert_eq!(map.get_id_at(0, 0, 0), Some(6));
    let commands = map.draw(Vec2::new(0, 0), None).unwrap();
    assert_eq!(commands.len(), 2);
    assert_eq!(commands[1].dest_size, Vec2::new(-8, 8));
    assert_eq!(commands[1].rotation, Rotation::Deg270);
    assert_eq!(commands[1].source, Rect::new(56, 0, 8, 8));
}

#[test]
fn set_by_pixel_with_nothing_empties_the_cell() {
    let mut map = sample_map();
    map.set_tileid_at(0, None, Vec2::new(16, 0));
    assert_eq!(map.get_id_at(0, 2, 0), None);
    assert_eq!(map.get_id_at(0, 0, 0), Some(5));
    map.set_tileid_at(0, None, Vec2::new(8, 8));
    assert_eq!(map.get_id_at(0, 1, 1), None);
}

#[test]
fn set_by_pixel_outside_the_map_changes_nothing() {
    let mut map = sample_map();
    map.set_tileid_at(0, Some(9), Vec2::new(-1, 0));
    map.set_tileid_at(0, Some(9), Vec2::new(32, 0));
    map.set_tileid_at(0, Some(9), Vec2::new(0, 24));
    map.set_tileid_at(NO_LAYER, Some(9), Vec2::new(0, 0));
    map.set_tileid_at(0, Some(9), Vec2::new(i32::MAX, i32::MAX));
    assert_eq!(map.get_all_position_from_id(0, 9), Vec::<Vec2>::new());
    assert_eq!(map.get_all_position_from_id(1, 9), Vec::<Vec2>::new());
    assert_eq!(map.get_all_position_from_id(2, 9), Vec::<Vec2>::new());
}

#[test]
fn tiles_from_a_list_fill_a_layer() {
    let mut map = Tilemap::new(atlas(), 8, 8, 2, 3);
    // two columns of three rows
    map.set_tiles_from_map(0, &[vec![1, 2, 3], vec![4, 5, 6]]);
    assert_eq!(map.get_id_at(0, 0, 0), Some(1));
    assert_eq!(map.get_id_at(0, 0, 2), Some(3));
    assert_eq!(map.get_id_at(0, 1, 0), Some(4));
    assert_eq!(map.get_id_at(0, 1, 2), Some(6));
    assert_eq!(map.get_all_position_from_id(0, 6), vec![Vec2::new(8, 16)]);
    assert_eq!(map.get_layer_id(""), 0);
}

#[test]
fn tiles_from_a_list_for_a_missing_layer_add_a_layer() {
    let mut map = Tilemap::new(atlas(), 8, 8, 2, 1);
    map.set_tiles_from_map(5, &[vec![7], vec![8]]);
    assert_eq!(map.get_id_at(0, 0, 0), None);
    assert_eq!(map.get_id_at(1, 0, 0), Some(7));
    assert_eq!(map.get_id_at(1, 1, 0), Some(8));
    assert_eq!(map.get_id_at(5, 0, 0), None);
    let commands = map.draw(Vec2::new(0, 0), None).unwrap();
    assert_eq!(commands.len(), 2);
    assert_eq!(commands[0].color, Color::white());
    assert_eq!(commands[0].dest_size, Vec2::new(8, 8));
}

#[test]
fn draw_goes_layer_by_layer_and_row_by_row() {
    let map = sample_map();
    let commands = map.draw(Vec2::new(100, -50), None).unwrap();
    let white = Color::white();
    let quad = |x: i64, y: i64, id: i32| DrawCommand {
        x,
        y,
        color: white,
        dest_size: Vec2::new(8, 8),
        source: Rect::new((id % 13) * 8, (id / 13) * 8, 8, 8),
        rotation: Rotation::Deg0,
    };
    assert_eq!(
        commands,
        vec![
            quad(100, -50, 5),
            quad(116, -50, 520),
            quad(108, -42, 507),
            quad(100, -34, 475),
            quad(124, -34, 475),
            quad(100, -50, 3),
        ]
    );
}

#[test]
fn draw_leaves_out_hidden_layers() {
    let mut map = sample_map();
    map.visibility(1, false);
    map.visibility(NO_LAYER, false);
    let commands = map.draw(Vec2::new(0, 0), None).unwrap();
    assert_eq!(commands.len(), 3);
    assert_eq!(commands[0].source, Rect::new(40, 0, 8, 8));
    assert_eq!(commands[2].source, Rect::new(24, 0, 8, 8));
    map.visibility(1, true);
    assert_eq!(map.draw(Vec2::new(0, 0), None).unwrap().len(), 6);
}

#[test]
fn draw_with_a_filter_shows_that_layer_even_if_hidden() {
    let mut map = sample_map();
    map.visibility(1, false);
    let commands = map.draw(Vec2::new(0, 0), Some(1)).unwrap();
    assert_eq!(commands.len(), 3);
    assert_eq!((commands[0].x, commands[0].y), (8, 8));
    assert_eq!(map.draw(Vec2::new(0, 0), Some(2)).unwrap().len(), 1);
    assert_eq!(map.draw(Vec2::new(0, 0), Some(NO_LAYER)).unwrap().len(), 0);
}

#[test]
fn draw_fails_on_a_tile_that_the_catalog_lacks() {
    let mut map = sample_map();
    map.set_tileid_at(2, Some(572), Vec2::new(0, 0));
    assert_eq!(map.draw(Vec2::new(0, 0), None), None);
    assert_eq!(map.draw(Vec2::new(0, 0), Some(2)), None);
    assert_eq!(map.draw(Vec2::new(0, 0), Some(0)).unwrap().len(), 2);
    map.visibility(2, false);
    assert_eq!(map.draw(Vec2::new(0, 0), None).unwrap().len(), 5);
}

#[test]
fn draw_at_the_edge_of_the_range_does_not_overflow() {
    let map = sample_map();
    let commands = map.draw(Vec2::new(i32::MAX, i32::MAX), Some(1)).unwrap();
    assert_eq!(commands[2].x, i64::from(i32::MAX) + 24);
    assert_eq!(commands[2].y, i64::from(i32::MAX) + 16);
}

#[test]
fn colour_tints_every_layer() {
    let mut map = sample_map();
    let red = Color { r: 255, g: 0, b: 0, a: 255 };
    map.color(red);
    let commands = map.draw(Vec2::new(0, 0), None).unwrap();
    assert_eq!(commands.len(), 6);
    for command in commands {
        assert_eq!(command.color, red);
    }
}

#[test]
fn viewport_is_kept_and_tested_with_its_edges() {
    let mut map = sample_map();
    assert!(map.is_inside_viewport(Vec2::new(0, 0)));
    assert!(!map.is_inside_viewport(Vec2::new(1, 0)));
    map.viewport(Rect::new(8, 8, 16, 8));
    assert!(map.is_inside_viewport(Vec2::new(8, 8)));
    assert!(map.is_inside_viewport(Vec2::new(24, 16)));
    assert!(!map.is_inside_viewport(Vec2::new(25, 16)));
    assert!(!map.is_inside_viewport(Vec2::new(24, 17)));
    assert!(!map.is_inside_viewport(Vec2::new(7, 8)));
    assert!(!map.is_inside_viewport(Vec2::new(8, 7)));
    // the viewport clips nothing
    assert_eq!(map.draw(Vec2::new(0, 0), None).unwrap().len(), 6);
}

#[test]
fn frames_come_in_the_order_of_the_identifiers() {
    let map = sample_map();
    assert_eq!(
        map.get_frames_from_ids(&[13, 0, 13]),
        vec![Rect::new(0, 8, 8, 8), Rect::new(0, 0, 8, 8), Rect::new(0, 8, 8, 8)]
    );
    assert_eq!(map.get_frames_from_ids(&[]), Vec::<Rect>::new());
}

#[test]
fn default_tile_is_all_zero() {
    assert_eq!(
        Tile::default(),
        Tile {
            id: 0,
            x: 0,
            y: 0,
            position_x: 0,
            position_y: 0,
            rotation: Rotation::Deg0,
            dest_size: Vec2::new(0, 0),
        }
    );
}
