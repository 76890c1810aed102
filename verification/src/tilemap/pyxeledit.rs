//! The authored form of a map: layers of placed tiles as a map editor
//! exports them, and the step that derives from each placed tile what the
//! engine draws.

use crate::tilemap::{Rotation, NO_LAYER};
use crate::utils::{Rect, Vec2};
use std::collections::HashMap;
use vstd::prelude::*;

verus! {

/// The tile identifier that marks a cell as empty.
pub const EMPTY_TILE: i32 = -1;

/// An authored map: its size in tiles, the size of a tile in pixels, and
/// its layers in the order of the export, top-most layer first.
#[derive(Debug)]
pub struct PyxelTilemap {
    pub tileshigh: i64,
    pub tileswide: i64,
    pub tile_height: i32,
    pub tile_width: i32,
    pub layers: Vec<Layers>,
}

/// An authored layer.
#[derive(Debug)]
pub struct Layers {
    pub number: i64,
    pub tiles: Vec<Tile>,
    pub name: String,
}

/// A placed tile: what was authored, and what is derived from it.
///
/// The derived values are absent until the tile has been remodelled. A
/// pixel position or a mirrored width that does not fit an `i32` stays
/// absent.
#[derive(Clone, Copy, Debug, PartialEq, Eq, Structural)]
pub struct Tile {
    pub id: i32,
    pub x: i32,
    pub y: i32,
    pub flip_x: bool,
    pub index: i64,
    /// Quarter turns, 0 to 3.
    pub rotation_id: i8,
    pub position_x: Option<i32>,
    pub position_y: Option<i32>,
    pub rotation: Option<Rotation>,
    pub dest_size: Option<Vec2>,
}

/// The value `v` as an `i32`, if it is one.
pub open spec fn fit_i32(v: int) -> Option<i32> {
    if i32::MIN <= v <= i32::MAX {
        Some(v as i32)
    } else {
        None
    }
}

/// The rotation that the code `rotation` stands for: 1, 2 and 3 are one,
/// two and three quarter turns; every other code leaves the tile unturned.
pub open spec fn spec_pyxel_rotation(rotation: i8) -> Rotation {
    if rotation == 1 {
        Rotation::Deg90
    } else if rotation == 2 {
        Rotation::Deg180
    } else if rotation == 3 {
        Rotation::Deg270
    } else {
        Rotation::Deg0
    }
}

/// The rotation that the code `rotation` stands for.
pub fn pyxel_rotation(rotation: i8) -> (turn: Rotation)
    ensures
        turn == spec_pyxel_rotation(rotation),
{
    if rotation == 1 {
        Rotation::Deg90
    } else if rotation == 2 {
        Rotation::Deg180
    } else if rotation == 3 {
        Rotation::Deg270
    } else {
        Rotation::Deg0
    }
}

/// The destination size of a tile of `tile_width` by `tile_height` pixels:
/// a mirrored tile has the negated width.
pub open spec fn spec_dest_size(flip_x: bool, tile_width: i32, tile_height: i32) -> Option<Vec2> {
    if flip_x {
        match fit_i32(-tile_width) {
            Some(width) => Some(Vec2 { x: width, y: tile_height }),
            None => None,
        }
    } else {
        Some(Vec2 { x: tile_width, y: tile_height })
    }
}

impl Tile {
    /// A placed tile as authored, with nothing derived yet.
    pub fn new(id: i32, x: i32, y: i32, flip_x: bool, index: i64, rotation_id: i8) -> (tile: Tile)
        ensures
            tile == (Tile {
                id,
                x,
                y,
                flip_x,
                index,
                rotation_id,
                position_x: None,
                position_y: None,
                rotation: None,
                dest_size: None,
            }),
    {
        Tile {
            id,
            x,
            y,
            flip_x,
            index,
            rotation_id,
            position_x: None,
            position_y: None,
            rotation: None,
            dest_size: None,
        }
    }

    /// Whether the tile marks an empty cell.
    pub open spec fn is_empty(self) -> bool {
        self.id == EMPTY_TILE
    }

    /// The tile with its derived values, on a map whose tiles measure
    /// `tile_width` by `tile_height` pixels: the pixel position of its cell,
    /// its rotation, and its destination size.
    pub open spec fn remodelled(self, tile_width: i32, tile_height: i32) -> Tile {
        Tile {
            position_x: fit_i32(self.x * tile_width),
            position_y: fit_i32(self.y * tile_height),
            rotation: Some(spec_pyxel_rotation(self.rotation_id)),
            dest_size: spec_dest_size(self.flip_x, tile_width, tile_height),
            ..self
        }
    }

    /// Derives the pixel position, the rotation and the destination size.
    pub fn remodel(&mut self, tile_width: i32, tile_height: i32)
        ensures
            *final(self) == old(self).remodelled(tile_width, tile_height),
    {
        proof {
            lemma_product_in_i64(self.x as int, tile_width as int);
            lemma_product_in_i64(self.y as int, tile_height as int);
        }
        let px: i64 = self.x as i64 * tile_width as i64;
        let py: i64 = self.y as i64 * tile_height as i64;
        self.position_x = narrow(px);
        self.position_y = narrow(py);
        self.rotation = Some(pyxel_rotation(self.rotation_id));
        self.dest_size = if self.flip_x {
            match narrow(-(tile_width as i64)) {
                Some(width) => Some(Vec2::new(width, tile_height)),
                None => None,
            }
        } else {
            Some(Vec2::new(tile_width, tile_height))
        };
    }
}

impl Tile {
    /// Whether the tile can be put on a map of `width` by `height` cells
    /// with tiles of `tile_width` by `tile_height` pixels: it names a tile of
    /// the catalog, lies on the map, and carries the derived values that
    /// remodelling gives it.
    pub open spec fn placeable(self, width: int, height: int, tile_width: i32, tile_height: i32) -> bool {
        &&& self.id >= 0
        &&& 0 <= self.x < width
        &&& 0 <= self.y < height
        &&& self == self.remodelled(tile_width, tile_height)
    }

    /// Whether the tile can be put on such a map.
    pub fn is_placeable(&self, width: i64, height: i64, tile_width: i32, tile_height: i32) -> (ok:
        bool)
        ensures
            ok == self.placeable(width as int, height as int, tile_width, tile_height),
    {
        if self.id >= 0 && 0 <= self.x && (self.x as i64) < width && 0 <= self.y && (self.y as i64)
            < height {
            let mut derived = *self;
            derived.remodel(tile_width, tile_height);
            derived == *self
        } else {
            false
        }
    }
}

/// The product of two `i32` values fits an `i64`.
pub proof fn lemma_product_in_i64(a: int, b: int)
    requires
        i32::MIN <= a <= i32::MAX,
        i32::MIN <= b <= i32::MAX,
    ensures
        i64::MIN <= a * b <= i64::MAX,
{
    assert(-0x4000_0000_0000_0000 <= a * b <= 0x4000_0000_0000_0000) by (nonlinear_arith)
        requires
            -0x8000_0000 <= a <= 0x8000_0000,
            -0x8000_0000 <= b <= 0x8000_0000,
    ;
}

/// The value `v` as an `i32`, if it is one.
fn narrow(v: i64) -> (fitted: Option<i32>)
    ensures
        fitted == fit_i32(v as int),
{
    if v >= -0x8000_0000 && v <= 0x7fff_ffff {
        Some(v as i32)
    } else {
        None
    }
}

/// The test that keeps the tiles that do not mark an empty cell.
pub open spec fn is_populated() -> spec_fn(Tile) -> bool {
    |tile: Tile| !tile.is_empty()
}

/// The step that derives the values of one tile.
pub open spec fn derive_values(tile_width: i32, tile_height: i32) -> spec_fn(Tile) -> Tile {
    |tile: Tile| tile.remodelled(tile_width, tile_height)
}

/// The tiles of an authored layer after remodelling: those that mark an
/// empty cell are gone, the others carry their derived values, in the
/// order in which they were authored.
pub open spec fn remodelled_tiles(tiles: Seq<Tile>, tile_width: i32, tile_height: i32) -> Seq<Tile> {
    tiles.filter(is_populated()).map_values(derive_values(tile_width, tile_height))
}

/// Whether `after` is the authored layer `before`, remodelled.
pub open spec fn is_remodelled_layer(
    after: Layers,
    before: Layers,
    tile_width: i32,
    tile_height: i32,
) -> bool {
    &&& after.number == before.number
    &&& after.name@ == before.name@
    &&& after.tiles@ == remodelled_tiles(before.tiles@, tile_width, tile_height)
}

/// Whether `after` is the authored map `before`, remodelled: the same
/// sizes, and layer by layer the remodelled tiles.
pub open spec fn is_remodelled(after: PyxelTilemap, before: PyxelTilemap) -> bool {
    &&& after.tileshigh == before.tileshigh
    &&& after.tileswide == before.tileswide
    &&& after.tile_height == before.tile_height
    &&& after.tile_width == before.tile_width
    &&& after.layers@.len() == before.layers@.len()
    &&& forall|l: int|
        0 <= l < before.layers@.len() ==> is_remodelled_layer(
            #[trigger] after.layers@[l],
            before.layers@[l],
            before.tile_width,
            before.tile_height,
        )
}

/// Drops the tiles that mark an empty cell and derives the values of the
/// others.
fn remodel_tiles(tiles: &Vec<Tile>, tile_width: i32, tile_height: i32) -> (kept: Vec<Tile>)
    ensures
        kept@ == remodelled_tiles(tiles@, tile_width, tile_height),
{
    let mut kept: Vec<Tile> = Vec::new();
    let mut i: usize = 0;
    while i < tiles.len()
        invariant
            i <= tiles@.len(),
            kept@ == remodelled_tiles(tiles@.take(i as int), tile_width, tile_height),
        decreases tiles@.len() - i,
    {
        let mut tile = tiles[i];
        proof {
            let seen = tiles@.take(i as int);
            seen.filter(is_populated()).lemma_push_map_commute(
                derive_values(tile_width, tile_height),
                tile,
            );
            seen.lemma_filter_push(tile, is_populated());
            tiles@.lemma_take_succ_push(i as int);
        }
        if tile.id != EMPTY_TILE {
            tile.remodel(tile_width, tile_height);
            kept.push(tile);
        }
        i += 1;
    }
    proof {
        tiles@.lemma_take_len();
    }
    kept
}

/// Remodels every layer of the map: the tiles that mark an empty cell are
/// dropped, and each other tile gets its derived values.
pub fn remodel(tilemap: &mut PyxelTilemap)
    ensures
        is_remodelled(*final(tilemap), *old(tilemap)),
{
    let mut i: usize = 0;
    while i < tilemap.layers.len()
        invariant
            i <= tilemap.layers@.len(),
            tilemap.tileshigh == old(tilemap).tileshigh,
            tilemap.tileswide == old(tilemap).tileswide,
            tilemap.tile_height == old(tilemap).tile_height,
            tilemap.tile_width == old(tilemap).tile_width,
            tilemap.layers@.len() == old(tilemap).layers@.len(),
            forall|l: int|
                0 <= l < i ==> is_remodelled_layer(
                    #[trigger] tilemap.layers@[l],
                    old(tilemap).layers@[l],
                    tilemap.tile_width,
                    tilemap.tile_height,
                ),
            forall|l: int|
                i <= l < tilemap.layers@.len() ==> #[trigger] tilemap.layers@[l] == old(
                    tilemap,
                ).layers@[l],
        decreases tilemap.layers@.len() - i,
    {
        let kept = remodel_tiles(&tilemap.layers[i].tiles, tilemap.tile_width, tilemap.tile_height);
        tilemap.layers[i].tiles = kept;
        i += 1;
    }
}

impl PyxelTilemap {
    /// Whether the sizes suit a map: tiles of a positive size, and a cell
    /// count that fits a `usize` and an extent in pixels that fits an `i32`.
    pub open spec fn sizes_fit(&self) -> bool {
        &&& self.tile_width > 0
        &&& self.tile_height > 0
        &&& 0 <= self.tileswide
        &&& 0 <= self.tileshigh
        &&& self.tileswide * self.tileshigh <= usize::MAX
        &&& self.tileswide * self.tile_width <= i32::MAX
        &&& self.tileshigh * self.tile_height <= i32::MAX
    }

    /// Whether a map can be made of this data: the sizes suit a map, there
    /// are at most `NO_LAYER` layers, and every tile can be put on the map.
    pub open spec fn importable(&self) -> bool {
        &&& self.sizes_fit()
        &&& self.layers@.len() <= NO_LAYER
        &&& forall|l: int, k: int|
            0 <= l < self.layers@.len() && 0 <= k < self.layers@[l].tiles@.len() ==> (
            #[trigger] self.layers@[l].tiles@[k]).placeable(
                self.tileswide as int,
                self.tileshigh as int,
                self.tile_width,
                self.tile_height,
            )
    }

    /// Whether the sizes suit a map.
    pub fn check_sizes(&self) -> (ok: bool)
        ensures
            ok == self.sizes_fit(),
    {
        if self.tile_width > 0 && self.tile_height > 0 && self.tileswide >= 0 && self.tileshigh
            >= 0 {
            let wide: u128 = self.tileswide as u128;
            let high: u128 = self.tileshigh as u128;
            proof {
                assert(wide * high <= 0x8000_0000_0000_0000 * 0x8000_0000_0000_0000)
                    by (nonlinear_arith)
                    requires
                        0 <= wide <= 0x8000_0000_0000_0000,
                        0 <= high <= 0x8000_0000_0000_0000,
                ;
                assert(wide * (self.tile_width as u128) <= 0x8000_0000_0000_0000 * 0x8000_0000)
                    by (nonlinear_arith)
                    requires
                        0 <= wide <= 0x8000_0000_0000_0000,
                        0 <= self.tile_width <= 0x8000_0000,
                ;
                assert(high * (self.tile_height as u128) <= 0x8000_0000_0000_0000 * 0x8000_0000)
                    by (nonlinear_arith)
                    requires
                        0 <= high <= 0x8000_0000_0000_0000,
                        0 <= self.tile_height <= 0x8000_0000,
                ;
            }
            wide * high <= usize::MAX as u128 && wide * (self.tile_width as u128) <= 0x7fff_ffff
                && high * (self.tile_height as u128) <= 0x7fff_ffff
        } else {
            false
        }
    }

    /// Whether a map can be made of this data.
    pub fn is_importable(&self) -> (ok: bool)
        ensures
            ok == self.importable(),
    {
        if !self.check_sizes() || self.layers.len() > NO_LAYER {
            return false;
        }
        let mut l: usize = 0;
        while l < self.layers.len()
            invariant
                l <= self.layers@.len(),
                forall|i: int, k: int|
                    0 <= i < l && 0 <= k < self.layers@[i].tiles@.len() ==> (
                    #[trigger] self.layers@[i].tiles@[k]).placeable(
                        self.tileswide as int,
                        self.tileshigh as int,
                        self.tile_width,
                        self.tile_height,
                    ),
            decreases self.layers@.len() - l,
        {
            let tiles = &self.layers[l].tiles;
            let mut k: usize = 0;
            while k < tiles.len()
                invariant
                    l < self.layers@.len(),
                    tiles == self.layers@[l as int].tiles,
                    k <= tiles@.len(),
                    forall|j: int|
                        0 <= j < k ==> (#[trigger] tiles@[j]).placeable(
                            self.tileswide as int,
                            self.tileshigh as int,
                            self.tile_width,
                            self.tile_height,
                        ),
                decreases tiles@.len() - k,
            {
                if !tiles[k].is_placeable(
                    self.tileswide,
                    self.tileshigh,
                    self.tile_width,
                    self.tile_height,
                ) {
                    return false;
                }
                k += 1;
            }
            l += 1;
        }
        true
    }

    /// The authored map with the given sizes and layers, remodelled.
    pub fn new(
        tileshigh: i64,
        tileswide: i64,
        tile_height: i32,
        tile_width: i32,
        layers: Vec<Layers>,
    ) -> (tilemap: PyxelTilemap)
        ensures
            is_remodelled(
                tilemap,
                PyxelTilemap { tileshigh, tileswide, tile_height, tile_width, layers },
            ),
    {
        let mut tilemap = PyxelTilemap { tileshigh, tileswide, tile_height, tile_width, layers };
        remodel(&mut tilemap);
        tilemap
    }
}

/// No tile of a remodelled layer marks an empty cell, and each carries
/// the derived values of the authored tile that it comes from.
pub proof fn lemma_remodelled_tiles(tiles: Seq<Tile>, tile_width: i32, tile_height: i32, k: int)
    requires
        0 <= k < remodelled_tiles(tiles, tile_width, tile_height).len(),
    ensures
        !remodelled_tiles(tiles, tile_width, tile_height)[k].is_empty(),
        tiles.contains(tiles.filter(is_populated())[k]),
        remodelled_tiles(tiles, tile_width, tile_height)[k] == tiles.filter(
            is_populated(),
        )[k].remodelled(tile_width, tile_height),
        remodelled_tiles(tiles, tile_width, tile_height).len() <= tiles.len(),
{
    let kept = tiles.filter(is_populated());
    tiles.lemma_filter_pred(is_populated(), k);
    assert(kept.contains(kept[k]));
    tiles.lemma_filter_contains_rev(is_populated(), kept[k]);
    tiles.lemma_filter_len(is_populated());
}

/// A layer without a tile that marks an empty cell keeps all its tiles,
/// in their order, when it is remodelled.
pub proof fn lemma_remodelled_keeps(tiles: Seq<Tile>, tile_width: i32, tile_height: i32)
    requires
        forall|k: int| 0 <= k < tiles.len() ==> !(#[trigger] tiles[k]).is_empty(),
    ensures
        tiles.filter(is_populated()) == tiles,
        remodelled_tiles(tiles, tile_width, tile_height) == tiles.map_values(
            derive_values(tile_width, tile_height),
        ),
    decreases tiles.len(),
{
    if tiles.len() > 0 {
        let front = tiles.drop_last();
        assert forall|k: int| 0 <= k < front.len() implies !(#[trigger] front[k]).is_empty() by {
            assert(front[k] == tiles[k]);
        }
        lemma_remodelled_keeps(front, tile_width, tile_height);
        front.lemma_filter_push(tiles.last(), is_populated());
        assert(front.push(tiles.last()) =~= tiles);
    } else {
        assert(tiles.filter(is_populated()) =~= tiles) by {
            reveal(Seq::filter);
        }
    }
}

/// Authored data whose sizes suit a map, that has at most `NO_LAYER`
/// layers, and whose tiles either mark an empty cell or name a tile of the
/// catalog and lie on the map, is importable once it has been remodelled.
pub proof fn lemma_remodelled_importable(after: PyxelTilemap, before: PyxelTilemap)
    requires
        is_remodelled(after, before),
        before.sizes_fit(),
        before.layers@.len() <= NO_LAYER,
        forall|l: int, k: int|
            0 <= l < before.layers@.len() && 0 <= k < before.layers@[l].tiles@.len() ==> {
                let tile = #[trigger] before.layers@[l].tiles@[k];
                tile.is_empty() || (tile.id >= 0 && 0 <= tile.x < before.tileswide && 0 <= tile.y
                    < before.tileshigh)
            },
    ensures
        after.importable(),
{
    assert forall|l: int, k: int|
        0 <= l < after.layers@.len() && 0 <= k < after.layers@[l].tiles@.len() implies (
    #[trigger] after.layers@[l].tiles@[k]).placeable(
        after.tileswide as int,
        after.tileshigh as int,
        after.tile_width,
        after.tile_height,
    ) by {
        let authored = before.layers@[l].tiles@;
        assert(is_remodelled_layer(
            after.layers@[l],
            before.layers@[l],
            before.tile_width,
            before.tile_height,
        ));
        lemma_remodelled_tiles(authored, before.tile_width, before.tile_height, k);
        let source = authored.filter(is_populated())[k];
        let at = choose|i: int| 0 <= i < authored.len() && authored[i] == source;
        assert(before.layers@[l].tiles@[at] == source);
    }
}

/// The catalog of a texture of `texture_width` by `texture_height` pixels
/// cut into tiles of `tile_width` by `tile_height` pixels: the tiles are
/// numbered from 0, row by row, and within a row from left to right.
pub open spec fn texture_catalog(
    texture_height: i32,
    texture_width: i32,
    tile_width: i32,
    tile_height: i32,
) -> Map<i32, Rect> {
    let clip = Rect { x: 0, y: 0, w: texture_width, h: texture_height };
    Map::new(
        |id: i32|
            0 <= id < crate::tilemap::atlas_rows(clip, tile_height) * crate::tilemap::atlas_columns(
                clip,
                tile_width,
            ),
        |id: i32|
            crate::tilemap::atlas_rect(
                clip,
                tile_width,
                tile_height,
                crate::tilemap::atlas_columns(clip, tile_width),
                id as int,
            ),
    )
}

/// Whether a texture of this size can be cut into tiles of this size with
/// every identifier in the range of `i32`.
pub open spec fn texture_fits(
    texture_height: i32,
    texture_width: i32,
    tile_width: i32,
    tile_height: i32,
) -> bool {
    let clip = Rect { x: 0, y: 0, w: texture_width, h: texture_height };
    &&& tile_width > 0
    &&& tile_height > 0
    &&& crate::tilemap::atlas_rows(clip, tile_height) * crate::tilemap::atlas_columns(
        clip,
        tile_width,
    ) <= i32::MAX
}

/// Cuts a texture into tiles, row by row.
pub fn get_tile_rectangles(
    texture_height: i32,
    texture_width: i32,
    tile_width: i32,
    tile_height: i32,
) -> (catalog: HashMap<i32, Rect>)
    requires
        texture_fits(texture_height, texture_width, tile_width, tile_height),
    ensures
        catalog@ == texture_catalog(texture_height, texture_width, tile_width, tile_height),
{
    broadcast use vstd::std_specs::hash::group_hash_axioms;

    let clip = Rect::new(0, 0, texture_width, texture_height);
    let by_id = crate::tilemap::get_tile_rectangles(clip, tile_width, tile_height);
    let count: u32 = by_id.len() as u32;
    proof {
        crate::tilemap::lemma_catalog_partition(clip, tile_width, tile_height);
    }
    let mut catalog: HashMap<i32, Rect> = HashMap::new();
    let mut id: u32 = 0;
    while id < count
        invariant
            id <= count,
            count <= i32::MAX,
            by_id@ == crate::tilemap::catalog_of(clip, tile_width, tile_height),
            count == crate::tilemap::atlas_rows(clip, tile_height) * crate::tilemap::atlas_columns(
                clip,
                tile_width,
            ),
            forall|k: i32| catalog@.contains_key(k) <==> 0 <= k < id,
            forall|k: i32| 0 <= k < id ==> #[trigger] catalog@[k] == by_id@[k as u32],
        decreases count - id,
    {
        match by_id.get(&id) {
            Some(rectangle) => {
                catalog.insert(id as i32, *rectangle);
            },
            None => {},
        }
        id += 1;
    }
    assert(catalog@ =~= texture_catalog(texture_height, texture_width, tile_width, tile_height));
    catalog
}

impl PyxelTilemap {
    /// The place in the list of tiles of a layer that this old query
    /// reads for the pixel `position`: the product of the column and the
    /// row that the pixel lies in. There is none for a pixel left of or
    /// above the origin, or on a map whose tiles have no positive size.
    pub open spec fn listed_place(&self, position: Vec2) -> Option<int> {
        if self.tile_width > 0 && self.tile_height > 0 && position.x >= 0 && position.y >= 0 {
            Some(
                ((position.x as int) / (self.tile_width as int)) * ((position.y as int) / (
                self.tile_height as int)),
            )
        } else {
            None
        }
    }

    /// The identifier of the tile that stands in the list of `layer` at the
    /// place that goes with the pixel `position`, if there is such a place
    /// in the list.
    pub fn get_id_at_position(&self, layer: &Layers, position: Vec2) -> (id: Option<i32>)
        ensures
            id == match self.listed_place(position) {
                Some(place) => if place < layer.tiles@.len() {
                    Some(layer.tiles@[place].id)
                } else {
                    None
                },
                None => None,
            },
    {
        if self.tile_width > 0 && self.tile_height > 0 && position.x >= 0 && position.y >= 0 {
            let x: i64 = (position.x / self.tile_width) as i64;
            let y: i64 = (position.y / self.tile_height) as i64;
            proof {
                assert(0 <= position.x as int / self.tile_width as int <= position.x)
                    by (nonlinear_arith)
                    requires
                        position.x >= 0,
                        self.tile_width > 0,
                ;
                assert(0 <= position.y as int / self.tile_height as int <= position.y)
                    by (nonlinear_arith)
                    requires
                        position.y >= 0,
                        self.tile_height > 0,
                ;
                assert(0 <= x * y <= 0x8000_0000 * 0x8000_0000) by (nonlinear_arith)
                    requires
                        0 <= x <= 0x8000_0000,
                        0 <= y <= 0x8000_0000,
                ;
            }
            let place: u64 = (x * y) as u64;
            if place < layer.tiles.len() as u64 {
                Some(layer.tiles[place as usize].id)
            } else {
                None
            }
        } else {
            None
        }
    }
}

} // verus!
