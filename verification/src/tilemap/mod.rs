//! The tile map: a tile catalog over a shared atlas and an ordered list of
//! named layers, each a grid of tiles.

pub mod pyxeledit;
pub mod tile_animation;

use crate::tilemap::pyxeledit::PyxelTilemap;
use crate::utils::vecgrid::VecGrid;
use crate::utils::{Color, Rect, Vec2};
use std::collections::HashMap;
use vstd::prelude::*;

verus! {

/// The layer index that stands for "no such layer". A map never has a layer
/// with this index.
pub const NO_LAYER: usize = 99;

/// The value of the layer selector that selects every layer.
pub const DEFAULT_LAYER_TO_DRAW: i64 = -1;

/// How far a tile is turned, clockwise, in quarter turns.
#[derive(Clone, Copy, Debug, PartialEq, Eq, Structural)]
pub enum Rotation {
    Deg0,
    Deg90,
    Deg180,
    Deg270,
}

/// A populated cell of a layer.
///
/// A tile that is mirrored horizontally has a negative destination width;
/// there is no other mark of the mirroring.
#[derive(Clone, Copy, Debug, PartialEq, Eq, Structural)]
pub struct Tile {
    /// Key into the tile catalog.
    pub id: u32,
    /// Column of the cell.
    pub x: i32,
    /// Row of the cell.
    pub y: i32,
    /// Left edge of the cell in pixels.
    pub position_x: i32,
    /// Top edge of the cell in pixels.
    pub position_y: i32,
    pub rotation: Rotation,
    pub dest_size: Vec2,
}

/// One textured quad of a drawing pass.
#[derive(Clone, Copy, Debug, PartialEq, Eq, Structural)]
pub struct DrawCommand {
    /// Left edge of the destination in pixels.
    pub x: i64,
    /// Top edge of the destination in pixels.
    pub y: i64,
    /// Tint of the layer that the tile belongs to.
    pub color: Color,
    /// Size of the destination; a negative width mirrors the tile.
    pub dest_size: Vec2,
    /// The tile's rectangle in the atlas.
    pub source: Rect,
    pub rotation: Rotation,
}

/// A named sheet of tiles with its own visibility and tint.
#[derive(Debug)]
pub struct Layer {
    tiles: VecGrid<Tile>,
    name: String,
    visibility: bool,
    color: Color,
}

/// A tile catalog and a stack of layers that share one grid size.
pub struct Tilemap {
    width: usize,
    height: usize,
    viewport: Rect,
    tile_height: i32,
    tile_width: i32,
    layers: Vec<Layer>,
    tile_rectangles: HashMap<u32, Rect>,
    layer_to_draw: i64,
}

impl Default for Tile {
    fn default() -> (tile: Tile)
        ensures
            tile == (Tile {
                id: 0,
                x: 0,
                y: 0,
                position_x: 0,
                position_y: 0,
                rotation: Rotation::Deg0,
                dest_size: Vec2 { x: 0, y: 0 },
            }),
    {
        Tile {
            id: 0,
            x: 0,
            y: 0,
            position_x: 0,
            position_y: 0,
            rotation: Rotation::Deg0,
            dest_size: Vec2 { x: 0, y: 0 },
        }
    }
}

impl Tile {
    /// The same tile under another catalog key.
    pub open spec fn with_id(self, id: u32) -> Tile {
        Tile { id, ..self }
    }

    /// The unturned, unmirrored tile `id` in cell `(x, y)` of a map whose
    /// tiles measure `tile_width` by `tile_height` pixels.
    pub open spec fn plain(id: u32, x: int, y: int, tile_width: int, tile_height: int) -> Tile {
        Tile {
            id,
            x: x as i32,
            y: y as i32,
            position_x: (x * tile_width) as i32,
            position_y: (y * tile_height) as i32,
            rotation: Rotation::Deg0,
            dest_size: Vec2 { x: tile_width as i32, y: tile_height as i32 },
        }
    }

    /// Whether the tile's coordinates, pixel position and destination size
    /// are those of cell `(x, y)`.
    pub open spec fn placed_at(self, x: int, y: int, tile_width: int, tile_height: int) -> bool {
        &&& self.x == x
        &&& self.y == y
        &&& self.position_x == x * tile_width
        &&& self.position_y == y * tile_height
        &&& self.dest_size.y == tile_height
        &&& (self.dest_size.x == tile_width || self.dest_size.x == -tile_width)
    }
}

impl Layer {
    /// The tiles of the layer.
    pub closed spec fn grid(&self) -> VecGrid<Tile> {
        self.tiles
    }

    pub closed spec fn spec_name(&self) -> Seq<char> {
        self.name@
    }

    pub closed spec fn visible(&self) -> bool {
        self.visibility
    }

    pub closed spec fn tint(&self) -> Color {
        self.color
    }
}

impl Default for Layer {
    /// A visible, untinted, unnamed layer of one empty cell.
    fn default() -> (layer: Layer)
        ensures
            layer.grid().wf(),
            layer.grid().width() == 1,
            layer.grid().height() == 1,
            layer.grid().cells() == seq![None::<Tile>],
            layer.spec_name() == Seq::<char>::empty(),
            layer.visible(),
            layer.tint() == Color::spec_white(),
    {
        let tiles: VecGrid<Tile> = VecGrid::new(1, 1);
        assert(tiles.cells() =~= seq![None::<Tile>]);
        Layer { tiles, name: String::new(), visibility: true, color: Color::white() }
    }
}

impl Tilemap {
    /// Number of columns of every layer.
    pub closed spec fn width(&self) -> nat {
        self.width as nat
    }

    /// Number of rows of every layer.
    pub closed spec fn height(&self) -> nat {
        self.height as nat
    }

    /// Width of a tile in pixels.
    pub closed spec fn tile_width(&self) -> int {
        self.tile_width as int
    }

    /// Height of a tile in pixels.
    pub closed spec fn tile_height(&self) -> int {
        self.tile_height as int
    }

    /// The layers, bottom-most first.
    pub closed spec fn layers(&self) -> Seq<Layer> {
        self.layers@
    }

    /// The tile catalog: the source rectangle of each tile identifier.
    pub closed spec fn catalog(&self) -> Map<u32, Rect> {
        self.tile_rectangles@
    }

    pub closed spec fn spec_viewport(&self) -> Rect {
        self.viewport
    }

    /// The layer selector; `DEFAULT_LAYER_TO_DRAW` selects every layer.
    pub closed spec fn layer_to_draw(&self) -> int {
        self.layer_to_draw as int
    }

    pub open spec fn layer_count(&self) -> nat {
        self.layers().len()
    }

    pub open spec fn has_layer(&self, layer: int) -> bool {
        0 <= layer < self.layer_count()
    }

    /// Whether `(x, y)` names a cell of the map.
    pub open spec fn in_bounds(&self, x: int, y: int) -> bool {
        0 <= x < self.width() && 0 <= y < self.height()
    }

    /// The tile in cell `(x, y)` of `layer`; nothing where the cell is
    /// empty, lies outside the map, or the layer does not exist.
    pub open spec fn tile_at(&self, layer: int, x: int, y: int) -> Option<Tile> {
        if self.has_layer(layer) {
            self.layers()[layer].grid().at(x, y)
        } else {
            None
        }
    }

    /// The identifier of the tile in cell `(x, y)` of `layer`.
    pub open spec fn id_at(&self, layer: int, x: int, y: int) -> Option<u32> {
        match self.tile_at(layer, x, y) {
            Some(tile) => Some(tile.id),
            None => None,
        }
    }

    /// The identifier of the tile under the pixel `(x, y)` of `layer`:
    /// that of the cell that the pixel falls in, rounding down.
    pub open spec fn id_at_point(&self, layer: int, x: int, y: int) -> Option<u32> {
        if x >= 0 && y >= 0 {
            self.id_at(layer, x / self.tile_width(), y / self.tile_height())
        } else {
            None
        }
    }

    /// The identifier of the tile under the pixel `position` of `layer`.
    pub open spec fn id_at_pixel(&self, layer: int, position: Vec2) -> Option<u32> {
        self.id_at_point(layer, position.x as int, position.y as int)
    }

    /// The top-left pixel of cell `(x, y)`.
    pub open spec fn cell_origin(&self, x: int, y: int) -> Vec2 {
        Vec2 { x: (x * self.tile_width()) as i32, y: (y * self.tile_height()) as i32 }
    }

    /// What holds of every map: tiles have a positive size, the map's cell
    /// count fits a `usize` and its extent in pixels an `i32`, no layer has
    /// the index `NO_LAYER`,
    /// all layers have the map's grid size, and every tile carries the
    /// coordinates, the pixel position and the size of the cell it is in.
    pub open spec fn wf(&self) -> bool {
        &&& self.tile_width() > 0
        &&& self.tile_height() > 0
        &&& self.width() * self.height() <= usize::MAX
        &&& self.width() * self.tile_width() <= i32::MAX
        &&& self.height() * self.tile_height() <= i32::MAX
        &&& self.layer_count() <= NO_LAYER
        &&& forall|l: int|
            0 <= l < self.layer_count() ==> {
                &&& (#[trigger] self.layers()[l]).grid().wf()
                &&& self.layers()[l].grid().width() == self.width()
                &&& self.layers()[l].grid().height() == self.height()
            }
        &&& forall|l: int, x: int, y: int|
            #![trigger self.tile_at(l, x, y)]
            self.tile_at(l, x, y) matches Some(tile) ==> tile.placed_at(
                x,
                y,
                self.tile_width(),
                self.tile_height(),
            )
    }

    /// Whether a map of `width` by `height` tiles of the given size can be
    /// held: its cell count fits a `usize` and its extent in pixels an `i32`.
    pub open spec fn fits(tile_width: i32, tile_height: i32, width: usize, height: usize) -> bool {
        &&& tile_width > 0
        &&& tile_height > 0
        &&& width * height <= usize::MAX
        &&& width * tile_width <= i32::MAX
        &&& height * tile_height <= i32::MAX
    }

    /// A map of one empty, unnamed layer with the catalog of the atlas `clip`.
    pub fn new(clip: Rect, tile_width: i32, tile_height: i32, width: usize, height: usize) -> (map:
        Tilemap)
        requires
            atlas_fits(clip, tile_width, tile_height),
            Tilemap::fits(tile_width, tile_height, width, height),
        ensures
            map.wf(),
            map.width() == width,
            map.height() == height,
            map.tile_width() == tile_width,
            map.tile_height() == tile_height,
            map.catalog() == catalog_of(clip, tile_width, tile_height),
            map.spec_viewport() == (Rect { x: 0, y: 0, w: 0, h: 0 }),
            map.layer_to_draw() == DEFAULT_LAYER_TO_DRAW,
            map.layer_count() == 1,
            map.layers()[0].spec_name() == Seq::<char>::empty(),
            map.layers()[0].visible(),
            map.layers()[0].tint() == Color::spec_white(),
            forall|x: int, y: int| map.tile_at(0, x, y).is_none(),
    {
        let tiles: VecGrid<Tile> = VecGrid::new(width, height);
        let layer = Layer { tiles, name: String::new(), visibility: true, color: Color::white() };
        let mut layers: Vec<Layer> = Vec::new();
        layers.push(layer);
        let map = Tilemap {
            width,
            height,
            viewport: Rect::new(0, 0, 0, 0),
            tile_height,
            tile_width,
            layers,
            tile_rectangles: get_tile_rectangles(clip, tile_width, tile_height),
            layer_to_draw: DEFAULT_LAYER_TO_DRAW,
        };
        proof {
            assert forall|x: int, y: int| map.tile_at(0, x, y).is_none() by {
                if map.layers()[0].grid().in_bounds(x, y) {
                    crate::utils::vecgrid::lemma_index_in_range(x, y, width as int, height as int);
                }
            }
        }
        map
    }

    /// Whether the map is what the authored, remodelled map `authored`
    /// becomes with the atlas `clip`: it has the authored sizes, the catalog
    /// of the atlas, and the authored layers in reverse order, so that the
    /// layer authored last is the bottom-most.
    pub open spec fn is_import_of(&self, clip: Rect, authored: PyxelTilemap) -> bool {
        &&& self.wf()
        &&& self.width() == authored.tileswide
        &&& self.height() == authored.tileshigh
        &&& self.tile_width() == authored.tile_width
        &&& self.tile_height() == authored.tile_height
        &&& self.catalog() == catalog_of(clip, authored.tile_width, authored.tile_height)
        &&& self.spec_viewport() == (Rect { x: 0, y: 0, w: 0, h: 0 })
        &&& self.layer_to_draw() == DEFAULT_LAYER_TO_DRAW
        &&& self.layer_count() == authored.layers@.len()
        &&& forall|l: int|
            0 <= l < self.layer_count() ==> is_layer_of(
                #[trigger] self.layers()[l],
                authored.layers@[authored.layers@.len() - 1 - l],
                authored.tileswide as usize,
                authored.tileshigh as usize,
            )
    }

    /// The map that the authored, remodelled map becomes with the atlas
    /// `clip`. There is none if the data is not importable or the atlas
    /// cannot be cut into tiles of the authored size.
    pub fn from_pyxeledit(clip: Rect, pyxeltilemap: &PyxelTilemap) -> (map: Option<Tilemap>)
        ensures
            map.is_some() == (pyxeltilemap.importable() && atlas_fits(
                clip,
                pyxeltilemap.tile_width,
                pyxeltilemap.tile_height,
            )),
            map matches Some(imported) ==> imported.is_import_of(clip, *pyxeltilemap),
    {
        if pyxeltilemap.is_importable() && check_atlas(
            clip,
            pyxeltilemap.tile_width,
            pyxeltilemap.tile_height,
        ) {
            Some(transform_pyxeltilemap(clip, pyxeltilemap))
        } else {
            None
        }
    }

    /// The identifier of the tile in cell `(x, y)` of layer `layer_nr`.
    pub fn get_id_at(&self, layer_nr: usize, x: usize, y: usize) -> (id: Option<u32>)
        ensures
            id == self.id_at(layer_nr as int, x as int, y as int),
    {
        if layer_nr < self.layers.len() {
            match self.layers[layer_nr].tiles.get(x, y) {
                None => None,
                Some(tile) => Some(tile.id),
            }
        } else {
            None
        }
    }

    /// The identifier of the tile under the pixel `position` of `layer`.
    ///
    /// Nothing is found where the cell is empty, where the pixel lies
    /// outside the map, and where the layer does not exist.
    pub fn get_id_at_position(&self, layer: usize, position: Vec2) -> (id: Option<u32>)
        requires
            self.wf(),
        ensures
            id == self.id_at_pixel(layer as int, position),
    {
        if position.x >= 0 && position.y >= 0 {
            let x: i32 = position.x / self.tile_width;
            let y: i32 = position.y / self.tile_height;
            proof {
                assert(0 <= position.x as int / self.tile_width as int) by (nonlinear_arith)
                    requires
                        position.x >= 0,
                        self.tile_width > 0,
                ;
                assert(0 <= position.y as int / self.tile_height as int) by (nonlinear_arith)
                    requires
                        position.y >= 0,
                        self.tile_height > 0,
                ;
            }
            self.get_id_at(layer, x as usize, y as usize)
        } else {
            None
        }
    }

    /// Whether `layer` is the first layer called `name`.
    pub open spec fn is_first_layer_named(&self, name: Seq<char>, layer: int) -> bool {
        &&& self.has_layer(layer)
        &&& self.layers()[layer].spec_name() == name
        &&& forall|l: int| 0 <= l < layer ==> (#[trigger] self.layers()[l]).spec_name() != name
    }

    /// Whether no layer is called `name`.
    pub open spec fn no_layer_named(&self, name: Seq<char>) -> bool {
        forall|l: int| 0 <= l < self.layer_count() ==> (#[trigger] self.layers()[l]).spec_name() != name
    }

    /// The index of the first layer called `name`, or `NO_LAYER` if there is none.
    pub open spec fn layer_id(&self, name: Seq<char>) -> int {
        if exists|l: int| self.is_first_layer_named(name, l) {
            choose|l: int| self.is_first_layer_named(name, l)
        } else {
            NO_LAYER as int
        }
    }

    /// There is at most one first layer of a name, and none exactly when
    /// no layer has the name.
    pub proof fn lemma_layer_id(&self, name: Seq<char>, layer: int)
        ensures
            self.is_first_layer_named(name, layer) ==> self.layer_id(name) == layer,
            self.no_layer_named(name) ==> self.layer_id(name) == NO_LAYER,
    {
        if self.is_first_layer_named(name, layer) {
            let other = choose|l: int| self.is_first_layer_named(name, l);
            assert(self.is_first_layer_named(name, other));
            if other < layer {
                assert(self.layers()[other].spec_name() != name);
            }
            if layer < other {
                assert(self.layers()[layer].spec_name() != name);
            }
        }
        if self.no_layer_named(name) {
            if exists|l: int| self.is_first_layer_named(name, l) {
                let l = choose|l: int| self.is_first_layer_named(name, l);
                assert(self.layers()[l].spec_name() != name);
            }
        }
    }

    /// The index of the first layer called `name`, or `NO_LAYER` if there is none.
    pub fn get_layer_id(&self, name: &str) -> (layer: usize)
        ensures
            layer == self.layer_id(name@),
            self.is_first_layer_named(name@, layer as int) || (layer == NO_LAYER
                && self.no_layer_named(name@)),
    {
        proof {
            self.lemma_layer_id(name@, 0);
        }
        let wanted: String = name.to_owned();
        let mut i: usize = 0;
        while i < self.layers.len()
            invariant
                i <= self.layers.len(),
                wanted@ == name@,
                forall|l: int| 0 <= l < i ==> (#[trigger] self.layers()[l]).spec_name() != name@,
            decreases self.layers.len() - i,
        {
            if self.layers[i].name == wanted {
                proof {
                    self.lemma_layer_id(name@, i as int);
                }
                return i;
            }
            i += 1;
        }
        NO_LAYER
    }

    /// The name of `layer`, or the empty string if there is no such layer.
    pub fn get_layer_name(&self, layer: usize) -> (name: &str)
        ensures
            name@ == if self.has_layer(layer as int) {
                self.layers()[layer as int].spec_name()
            } else {
                Seq::<char>::empty()
            },
    {
        if layer < self.layers.len() {
            self.layers[layer].name.as_str()
        } else {
            proof {
                reveal_strlit("");
            }
            ""
        }
    }

    /// Shows or hides `layer`; changes nothing if there is no such layer.
    pub fn visibility(&mut self, layer: usize, visibility: bool)
        ensures
            final(self).same_frame(*old(self)),
            final(self).layer_count() == old(self).layer_count(),
            forall|l: int|
                0 <= l < old(self).layer_count() ==> {
                    &&& (#[trigger] final(self).layers()[l]).grid() == old(self).layers()[l].grid()
                    &&& final(self).layers()[l].spec_name() == old(self).layers()[l].spec_name()
                    &&& final(self).layers()[l].tint() == old(self).layers()[l].tint()
                    &&& final(self).layers()[l].visible() == if l == layer {
                        visibility
                    } else {
                        old(self).layers()[l].visible()
                    }
                },
            old(self).wf() ==> final(self).wf(),
    {
        if layer < self.layers.len() {
            self.layers[layer].visibility = visibility;
            proof {
                assert forall|l: int, x: int, y: int| #![trigger self.tile_at(l, x, y)] self.tile_at(l, x, y) == old(self).tile_at(l, x, y) by {}
            }
        }
    }

    /// Whether the two maps agree on everything but their layers: grid
    /// size, tile size, catalog, viewport and layer selector.
    pub open spec fn same_frame(&self, other: Tilemap) -> bool {
        &&& self.width() == other.width()
        &&& self.height() == other.height()
        &&& self.tile_width() == other.tile_width()
        &&& self.tile_height() == other.tile_height()
        &&& self.catalog() == other.catalog()
        &&& self.spec_viewport() == other.spec_viewport()
        &&& self.layer_to_draw() == other.layer_to_draw()
    }

    /// Whether `layer` is among those that the layer selector names.
    pub open spec fn is_selected(&self, layer: int) -> bool {
        self.layer_to_draw() == DEFAULT_LAYER_TO_DRAW || self.layer_to_draw() == layer
    }

    /// Tints the layers that the layer selector names: all of them by
    /// default, else the one selected.
    pub fn color(&mut self, color: Color)
        ensures
            final(self).same_frame(*old(self)),
            final(self).layer_count() == old(self).layer_count(),
            forall|l: int|
                0 <= l < old(self).layer_count() ==> {
                    &&& (#[trigger] final(self).layers()[l]).grid() == old(self).layers()[l].grid()
                    &&& final(self).layers()[l].spec_name() == old(self).layers()[l].spec_name()
                    &&& final(self).layers()[l].visible() == old(self).layers()[l].visible()
                    &&& final(self).layers()[l].tint() == if old(self).is_selected(l) {
                        color
                    } else {
                        old(self).layers()[l].tint()
                    }
                },
            old(self).wf() ==> final(self).wf(),
    {
        if self.layer_to_draw == DEFAULT_LAYER_TO_DRAW {
            let mut i: usize = 0;
            while i < self.layers.len()
                invariant
                    i <= self.layers.len(),
                    self.same_frame(*old(self)),
                    self.layer_to_draw == DEFAULT_LAYER_TO_DRAW,
                    self.layer_count() == old(self).layer_count(),
                    forall|l: int|
                        0 <= l < old(self).layer_count() ==> {
                            &&& (#[trigger] self.layers()[l]).grid() == old(self).layers()[l].grid()
                            &&& self.layers()[l].spec_name() == old(self).layers()[l].spec_name()
                            &&& self.layers()[l].visible() == old(self).layers()[l].visible()
                            &&& self.layers()[l].tint() == if l < i {
                                color
                            } else {
                                old(self).layers()[l].tint()
                            }
                        },
                decreases self.layers.len() - i,
            {
                self.layers[i].color = color;
                i += 1;
            }
        } else if self.layer_to_draw >= 0 && (self.layer_to_draw as u64) < self.layers.len() as u64 {
            let selected: usize = self.layer_to_draw as usize;
            self.layers[selected].color = color;
        }
        proof {
            assert forall|l: int, x: int, y: int| #![trigger self.tile_at(l, x, y)] self.tile_at(l, x, y) == old(self).tile_at(l, x, y) by {}
        }
    }

    /// Records the viewport. It is kept for the caller; no operation of the
    /// map reads it to cull or clip.
    pub fn viewport(&mut self, rectangle: Rect)
        ensures
            final(self).spec_viewport() == rectangle,
            final(self).layers() == old(self).layers(),
            final(self).width() == old(self).width(),
            final(self).height() == old(self).height(),
            final(self).tile_width() == old(self).tile_width(),
            final(self).tile_height() == old(self).tile_height(),
            final(self).catalog() == old(self).catalog(),
            final(self).layer_to_draw() == old(self).layer_to_draw(),
            old(self).wf() ==> final(self).wf(),
    {
        self.viewport = rectangle;
        proof {
            assert forall|l: int, x: int, y: int| #![trigger self.tile_at(l, x, y)] self.tile_at(l, x, y) == old(self).tile_at(l, x, y) by {}
        }
    }

    /// Whether `position` lies in the viewport, its four edges included.
    pub fn is_inside_viewport(&self, position: Vec2) -> (inside: bool)
        ensures
            inside == {
                &&& self.spec_viewport().x <= position.x <= self.spec_viewport().x
                    + self.spec_viewport().w
                &&& self.spec_viewport().y <= position.y <= self.spec_viewport().y
                    + self.spec_viewport().h
            },
    {
        let x: i64 = position.x as i64;
        let y: i64 = position.y as i64;
        !(x < self.viewport.x as i64 || y < self.viewport.y as i64 || x > self.viewport.x as i64
            + self.viewport.w as i64 || y > self.viewport.y as i64 + self.viewport.h as i64)
    }

    /// Whether the catalog knows the tile `id`.
    pub fn has_clip(&self, id: u32) -> (known: bool)
        ensures
            known == self.catalog().contains_key(id),
    {
        broadcast use vstd::std_specs::hash::group_hash_axioms;

        self.tile_rectangles.contains_key(&id)
    }

    /// The source rectangle of the tile `id`, which the catalog must know.
    pub fn get_clip_from_id(&self, id: u32) -> (clip: Rect)
        requires
            self.catalog().contains_key(id),
        ensures
            clip == self.catalog()[id],
    {
        broadcast use vstd::std_specs::hash::group_hash_axioms;

        match self.tile_rectangles.get(&id) {
            Some(clip) => *clip,
            None => Rect::new(0, 0, 0, 0),
        }
    }

    /// The source rectangles of the tiles `ids`, in their order; the
    /// catalog must know each of them.
    pub fn get_frames_from_ids(&self, ids: &[u32]) -> (frames: Vec<Rect>)
        requires
            forall|i: int| 0 <= i < ids@.len() ==> self.catalog().contains_key(#[trigger] ids@[i]),
        ensures
            frames@ == ids@.map_values(|id: u32| self.catalog()[id]),
    {
        let mut frames: Vec<Rect> = Vec::with_capacity(ids.len());
        let mut i: usize = 0;
        while i < ids.len()
            invariant
                i <= ids@.len(),
                frames@.len() == i,
                forall|k: int| 0 <= k < ids@.len() ==> self.catalog().contains_key(#[trigger] ids@[k]),
                forall|k: int| 0 <= k < i ==> #[trigger] frames@[k] == self.catalog()[ids@[k]],
            decreases ids@.len() - i,
        {
            frames.push(self.get_clip_from_id(ids[i]));
            i += 1;
        }
        assert(frames@ =~= ids@.map_values(|id: u32| self.catalog()[id]));
        frames
    }

    /// The top-left pixels of those among the first `n` cells of `layer`,
    /// counted row by row, that hold the tile `id`, in that order.
    pub open spec fn positions_among(&self, layer: int, id: u32, n: nat) -> Seq<Vec2>
        decreases n,
    {
        if n == 0 {
            Seq::empty()
        } else {
            let x = (n - 1) % (self.width() as int);
            let y = (n - 1) / (self.width() as int);
            let before = self.positions_among(layer, id, (n - 1) as nat);
            if self.id_at(layer, x, y) == Some(id) {
                before.push(self.cell_origin(x, y))
            } else {
                before
            }
        }
    }

    /// The top-left pixels of the cells of `layer` that hold the tile `id`,
    /// row by row and within a row from left to right.
    pub open spec fn positions_of(&self, layer: int, id: u32) -> Seq<Vec2> {
        self.positions_among(layer, id, self.width() * self.height())
    }

    /// Where the tile `id` occurs in `layer`, as pixel positions, row by
    /// row. A layer that does not exist holds no tile.
    pub fn get_all_position_from_id(&self, layer: usize, id: u32) -> (positions: Vec<Vec2>)
        requires
            self.wf(),
        ensures
            positions@ == self.positions_of(layer as int, id),
    {
        let mut positions: Vec<Vec2> = Vec::new();
        if layer < self.layers.len() {
            let tiles = self.layers[layer].tiles.get_data();
            let mut i: usize = 0;
            while i < tiles.len()
                invariant
                    self.wf(),
                    self.has_layer(layer as int),
                    tiles@ == self.layers()[layer as int].grid().cells(),
                    tiles@.len() == self.width() * self.height(),
                    i <= tiles@.len(),
                    positions@ == self.positions_among(layer as int, id, i as nat),
                decreases tiles@.len() - i,
            {
                proof {
                    self.lemma_cell_index(layer as int, i as int);
                }
                let found = match &tiles[i] {
                    Some(tile) => tile.id == id,
                    None => false,
                };
                if found {
                    let x: usize = (i % self.width) * (self.tile_width as usize);
                    let y: usize = (i / self.width) * (self.tile_height as usize);
                    positions.push(Vec2::new(x as i32, y as i32));
                }
                i += 1;
            }
        } else {
            proof {
                self.lemma_no_positions(layer as int, id, self.width() * self.height());
            }
        }
        positions
    }

    /// The `i`-th cell of a layer, counted row by row, is the cell
    /// `(i % width, i / width)`, and its top-left pixel fits an `i32`.
    pub proof fn lemma_cell_index(&self, layer: int, i: int)
        requires
            self.wf(),
            self.has_layer(layer),
            0 <= i < self.width() * self.height(),
        ensures
            self.in_bounds(i % (self.width() as int), i / (self.width() as int)),
            self.tile_at(layer, i % (self.width() as int), i / (self.width() as int))
                == self.layers()[layer].grid().cells()[i],
            0 <= (i % (self.width() as int)) * self.tile_width() <= i32::MAX,
            0 <= (i / (self.width() as int)) * self.tile_height() <= i32::MAX,
    {
        let w = self.width() as int;
        let h = self.height() as int;
        crate::utils::vecgrid::lemma_index_split(i, w, h);
        self.lemma_cell_origin_fits(i % w, i / w);
    }

    /// The top-left pixel of a cell of the map fits an `i32`.
    pub proof fn lemma_cell_origin_fits(&self, x: int, y: int)
        requires
            self.wf(),
            0 <= x <= self.width(),
            0 <= y <= self.height(),
        ensures
            0 <= x * self.tile_width() <= self.width() * self.tile_width() <= i32::MAX,
            0 <= y * self.tile_height() <= self.height() * self.tile_height() <= i32::MAX,
            x <= i32::MAX,
            y <= i32::MAX,
    {
        let w = self.width() as int;
        let h = self.height() as int;
        let tw = self.tile_width();
        let th = self.tile_height();
        assert(0 <= x * tw <= w * tw) by (nonlinear_arith)
            requires
                0 <= x <= w,
                tw > 0,
        ;
        assert(0 <= y * th <= h * th) by (nonlinear_arith)
            requires
                0 <= y <= h,
                th > 0,
        ;
        assert(x <= x * tw) by (nonlinear_arith)
            requires
                0 <= x,
                tw > 0,
        ;
        assert(y <= y * th) by (nonlinear_arith)
            requires
                0 <= y,
                th > 0,
        ;
    }

    /// Every position that is found is the top-left pixel of a cell of the
    /// map, and so lies within the map's extent.
    pub proof fn lemma_positions_on_map(&self, layer: int, id: u32, n: nat, k: int)
        requires
            self.wf(),
            n <= self.width() * self.height(),
            0 <= k < self.positions_among(layer, id, n).len(),
        ensures
            0 <= self.positions_among(layer, id, n)[k].x <= self.width() * self.tile_width(),
            0 <= self.positions_among(layer, id, n)[k].y <= self.height() * self.tile_height(),
        decreases n,
    {
        if n > 0 {
            let x = (n - 1) % (self.width() as int);
            let y = (n - 1) / (self.width() as int);
            let before = self.positions_among(layer, id, (n - 1) as nat);
            crate::utils::vecgrid::lemma_index_split(
                n - 1,
                self.width() as int,
                self.height() as int,
            );
            self.lemma_cell_origin_fits(x, y);
            if k < before.len() {
                self.lemma_positions_on_map(layer, id, (n - 1) as nat, k);
            }
        }
    }

    /// Two cells of the map with the same top-left pixel are the same cell.
    pub proof fn lemma_cell_origin_injective(&self, x1: int, y1: int, x2: int, y2: int)
        requires
            self.wf(),
            self.in_bounds(x1, y1),
            self.in_bounds(x2, y2),
            self.cell_origin(x1, y1) == self.cell_origin(x2, y2),
        ensures
            x1 == x2,
            y1 == y2,
    {
        self.lemma_cell_origin_fits(x1, y1);
        self.lemma_cell_origin_fits(x2, y2);
        let tw = self.tile_width();
        let th = self.tile_height();
        assert(x1 == x2) by (nonlinear_arith)
            requires
                x1 * tw == x2 * tw,
                tw > 0,
        ;
        assert(y1 == y2) by (nonlinear_arith)
            requires
                y1 * th == y2 * th,
                th > 0,
        ;
    }

    /// Among the first `n` cells of a layer, the cells whose top-left pixel
    /// is found are exactly those that hold the tile.
    pub proof fn lemma_positions_among(&self, layer: int, id: u32, n: nat, x: int, y: int)
        requires
            self.wf(),
            n <= self.width() * self.height(),
            self.in_bounds(x, y),
        ensures
            self.positions_among(layer, id, n).contains(self.cell_origin(x, y)) <==> (x + y
                * self.width() < n && self.id_at(layer, x, y) == Some(id)),
        decreases n,
    {
        let w = self.width() as int;
        let h = self.height() as int;
        if n > 0 {
            let cx = (n - 1) % w;
            let cy = (n - 1) / w;
            let before = self.positions_among(layer, id, (n - 1) as nat);
            crate::utils::vecgrid::lemma_index_split(n - 1, w, h);
            self.lemma_positions_among(layer, id, (n - 1) as nat, x, y);
            let origin = self.cell_origin(x, y);
            if self.id_at(layer, cx, cy) == Some(id) {
                let found = before.push(self.cell_origin(cx, cy));
                assert(found.last() == self.cell_origin(cx, cy));
                if self.cell_origin(cx, cy) == origin {
                    self.lemma_cell_origin_injective(cx, cy, x, y);
                    assert(found[found.len() - 1] == origin);
                }
                if found.contains(origin) {
                    let k = choose|k: int| 0 <= k < found.len() && found[k] == origin;
                    if k < before.len() {
                        assert(before[k] == origin);
                    }
                }
                if before.contains(origin) {
                    let k = choose|k: int| 0 <= k < before.len() && before[k] == origin;
                    assert(found[k] == origin);
                }
            }
            if x + y * w == n - 1 {
                crate::utils::vecgrid::lemma_index_injective(x, y, cx, cy, w);
            }
        }
    }

    /// A cell of the map is among the positions of a tile exactly when it
    /// holds that tile.
    pub proof fn lemma_positions_of(&self, layer: int, id: u32, x: int, y: int)
        requires
            self.wf(),
            self.in_bounds(x, y),
        ensures
            self.positions_of(layer, id).contains(self.cell_origin(x, y)) <==> self.id_at(
                layer,
                x,
                y,
            ) == Some(id),
    {
        self.lemma_positions_among(layer, id, self.width() * self.height(), x, y);
        crate::utils::vecgrid::lemma_index_in_range(
            x,
            y,
            self.width() as int,
            self.height() as int,
        );
    }

    /// A layer that does not exist holds no tile.
    pub proof fn lemma_no_positions(&self, layer: int, id: u32, n: nat)
        requires
            !self.has_layer(layer),
        ensures
            self.positions_among(layer, id, n) == Seq::<Vec2>::empty(),
        decreases n,
    {
        if n > 0 {
            self.lemma_no_positions(layer, id, (n - 1) as nat);
        }
    }

    /// Whether the two maps have the same number of layers, with the same
    /// names, visibility and tint.
    pub open spec fn same_layer_attributes(&self, other: Tilemap) -> bool {
        &&& self.layer_count() == other.layer_count()
        &&& forall|l: int|
            0 <= l < self.layer_count() ==> {
                &&& (#[trigger] self.layers()[l]).spec_name() == other.layers()[l].spec_name()
                &&& self.layers()[l].visible() == other.layers()[l].visible()
                &&& self.layers()[l].tint() == other.layers()[l].tint()
            }
    }

    /// Whether the two maps have layers of the same grid size.
    pub open spec fn same_grids(&self, other: Tilemap) -> bool {
        &&& self.layer_count() == other.layer_count()
        &&& forall|l: int|
            0 <= l < self.layer_count() ==> {
                &&& (#[trigger] self.layers()[l]).grid().wf() == other.layers()[l].grid().wf()
                &&& self.layers()[l].grid().width() == other.layers()[l].grid().width()
                &&& self.layers()[l].grid().height() == other.layers()[l].grid().height()
            }
    }

    /// What a cell holds after every tile `old_id` has been given the
    /// identifier `new_id`, or has been removed where there is none.
    pub open spec fn replaced(tile: Option<Tile>, old_id: u32, new_id: Option<u32>) -> Option<
        Tile,
    > {
        match tile {
            Some(t) => if t.id == old_id {
                match new_id {
                    Some(id) => Some(t.with_id(id)),
                    None => None,
                }
            } else {
                tile
            },
            None => None,
        }
    }

    /// Whether the map is the map `before` with every tile `old_id` of
    /// `layer` given the identifier `new_id`, or removed where `new_id` is
    /// nothing, and all else as it was.
    pub open spec fn is_replacement_of(
        &self,
        before: Tilemap,
        layer: int,
        old_id: u32,
        new_id: Option<u32>,
    ) -> bool {
        &&& self.wf()
        &&& self.same_frame(before)
        &&& self.same_layer_attributes(before)
        &&& forall|l: int, x: int, y: int|
            #![trigger self.tile_at(l, x, y)]
            self.tile_at(l, x, y) == if l == layer {
                Tilemap::replaced(before.tile_at(l, x, y), old_id, new_id)
            } else {
                before.tile_at(l, x, y)
            }
    }

    /// Gives every tile `old_id` of `layer` the identifier `new_id`, or
    /// removes it where `new_id` is nothing. Changes nothing if there is no
    /// such layer.
    pub fn replace_all_tileid(&mut self, layer: usize, old_id: u32, new_id: Option<u32>)
        requires
            old(self).wf(),
        ensures
            final(self).is_replacement_of(*old(self), layer as int, old_id, new_id),
    {
        if layer < self.layers.len() {
            let mut x: usize = 0;
            while x < self.width
                invariant
                    old(self).wf(),
                    layer < old(self).layer_count(),
                    x <= self.width,
                    self.same_frame(*old(self)),
                    self.same_layer_attributes(*old(self)),
                    self.same_grids(*old(self)),
                    forall|l: int, cx: int, cy: int|
                        #![trigger self.tile_at(l, cx, cy)]
                        self.tile_at(l, cx, cy) == if l == layer && cx < x {
                            Tilemap::replaced(old(self).tile_at(l, cx, cy), old_id, new_id)
                        } else {
                            old(self).tile_at(l, cx, cy)
                        },
                decreases self.width - x,
            {
                let mut y: usize = 0;
                while y < self.height
                    invariant
                        old(self).wf(),
                        layer < old(self).layer_count(),
                        x < self.width,
                        y <= self.height,
                        self.same_frame(*old(self)),
                        self.same_layer_attributes(*old(self)),
                        self.same_grids(*old(self)),
                        forall|l: int, cx: int, cy: int|
                            #![trigger self.tile_at(l, cx, cy)]
                            self.tile_at(l, cx, cy) == if l == layer && (cx < x || (cx == x && cy
                                < y)) {
                                Tilemap::replaced(old(self).tile_at(l, cx, cy), old_id, new_id)
                            } else {
                                old(self).tile_at(l, cx, cy)
                            },
                    decreases self.height - y,
                {
                    let ghost before = *self;
                    let found = match self.layers[layer].tiles.get(x, y) {
                        Some(tile) => tile.id == old_id,
                        None => false,
                    };
                    if found {
                        match new_id {
                            Some(id) => {
                                if let Some(tile) = self.layers[layer].tiles.get_mut(x, y) {
                                    tile.id = id;
                                }
                            },
                            None => {
                                self.layers[layer].tiles.delete(x, y);
                            },
                        }
                    }
                    proof {
                        let grid0 = before.layers()[layer as int].grid();
                        let grid1 = self.layers()[layer as int].grid();
                        let content = Tilemap::replaced(
                            before.tile_at(layer as int, x as int, y as int),
                            old_id,
                            new_id,
                        );
                        if found {
                            crate::utils::vecgrid::lemma_write_then_read(
                                grid0,
                                grid1,
                                x as int,
                                y as int,
                                content,
                            );
                        }
                        assert forall|l: int, cx: int, cy: int|
                            #![trigger self.tile_at(l, cx, cy)]
                            self.tile_at(l, cx, cy) == if l == layer && (cx < x || (cx == x && cy
                                < y + 1)) {
                                Tilemap::replaced(old(self).tile_at(l, cx, cy), old_id, new_id)
                            } else {
                                old(self).tile_at(l, cx, cy)
                            } by {
                            assert(before.tile_at(l, cx, cy) == if l == layer && (cx < x || (cx == x
                                && cy < y)) {
                                Tilemap::replaced(old(self).tile_at(l, cx, cy), old_id, new_id)
                            } else {
                                old(self).tile_at(l, cx, cy)
                            });
                            if l == layer && (cx, cy) != (x as int, y as int) {
                                assert(grid1.at(cx, cy) == grid0.at(cx, cy));
                            }
                        }
                    }
                    y += 1;
                }
                x += 1;
            }
            proof {
                assert forall|l: int, cx: int, cy: int|
                    #![trigger self.tile_at(l, cx, cy)]
                    self.tile_at(l, cx, cy) == if l == layer {
                        Tilemap::replaced(old(self).tile_at(l, cx, cy), old_id, new_id)
                    } else {
                        old(self).tile_at(l, cx, cy)
                    } by {
                    if l == layer && cx >= self.width {
                        assert(old(self).tile_at(l, cx, cy).is_none());
                    }
                }
                self.lemma_wf_from_tiles(*old(self));
            }
        }
    }

    /// A map is well formed if it has the frame and the grid sizes of a
    /// well-formed map and each of its tiles is correctly placed.
    proof fn lemma_wf_from_tiles(&self, other: Tilemap)
        requires
            other.wf(),
            self.same_frame(other),
            self.same_grids(other),
            forall|l: int, x: int, y: int|
                #![trigger self.tile_at(l, x, y)]
                self.tile_at(l, x, y) matches Some(tile) ==> tile.placed_at(
                    x,
                    y,
                    self.tile_width(),
                    self.tile_height(),
                ),
        ensures
            self.wf(),
    {
        assert forall|l: int| 0 <= l < self.layer_count() implies {
            &&& (#[trigger] self.layers()[l]).grid().wf()
            &&& self.layers()[l].grid().width() == self.width()
            &&& self.layers()[l].grid().height() == self.height()
        } by {
            assert(other.layers()[l].grid().wf());
        }
    }

    /// Whether the pixel `position` falls in the cell `(x, y)` of the map.
    pub open spec fn pixel_in_cell(&self, position: Vec2, x: int, y: int) -> bool {
        &&& position.x >= 0
        &&& position.y >= 0
        &&& x == (position.x as int) / self.tile_width()
        &&& y == (position.y as int) / self.tile_height()
        &&& self.in_bounds(x, y)
    }

    /// What the cell `(x, y)` holds after the tile `new_id` has been put
    /// into it: a tile that was there keeps all but its identifier, an empty
    /// cell gets an unturned, unmirrored tile, and with no `new_id` the cell
    /// is empty.
    pub open spec fn cell_with(&self, tile: Option<Tile>, new_id: Option<u32>, x: int, y: int) -> Option<
        Tile,
    > {
        match new_id {
            Some(id) => Some(
                match tile {
                    Some(t) => t.with_id(id),
                    None => Tile::plain(id, x, y, self.tile_width(), self.tile_height()),
                },
            ),
            None => None,
        }
    }

    /// Whether the map is the map `before` with the tile `new_id` put into
    /// the cell of `layer` under the pixel `position`, and all else as it was.
    pub open spec fn is_update_of(
        &self,
        before: Tilemap,
        layer: int,
        new_id: Option<u32>,
        position: Vec2,
    ) -> bool {
        &&& self.wf()
        &&& self.same_frame(before)
        &&& self.same_layer_attributes(before)
        &&& forall|l: int, x: int, y: int|
            #![trigger self.tile_at(l, x, y)]
            self.tile_at(l, x, y) == if l == layer && before.has_layer(l) && before.pixel_in_cell(
                position,
                x,
                y,
            ) {
                before.cell_with(before.tile_at(l, x, y), new_id, x, y)
            } else {
                before.tile_at(l, x, y)
            }
    }

    /// Puts the tile `new_id` into the cell of `layer` under the pixel
    /// `position`: a tile that is there keeps all but its identifier, an
    /// empty cell gets an unturned, unmirrored tile. With no `new_id` the
    /// cell is emptied. Changes nothing if there is no such layer or the
    /// pixel lies outside the map.
    pub fn set_tileid_at(&mut self, layer: usize, new_id: Option<u32>, position: Vec2)
        requires
            old(self).wf(),
        ensures
            final(self).is_update_of(*old(self), layer as int, new_id, position),
    {
        if layer < self.layers.len() && position.x >= 0 && position.y >= 0 {
            let cell_x: i32 = position.x / self.tile_width;
            let cell_y: i32 = position.y / self.tile_height;
            proof {
                assert(0 <= position.x as int / self.tile_width as int) by (nonlinear_arith)
                    requires
                        position.x >= 0,
                        self.tile_width > 0,
                ;
                assert(0 <= position.y as int / self.tile_height as int) by (nonlinear_arith)
                    requires
                        position.y >= 0,
                        self.tile_height > 0,
                ;
            }
            let x: usize = cell_x as usize;
            let y: usize = cell_y as usize;
            if x < self.width && y < self.height {
                proof {
                    self.lemma_cell_origin_fits(x as int, y as int);
                }
                let ghost content = self.cell_with(
                    self.tile_at(layer as int, x as int, y as int),
                    new_id,
                    x as int,
                    y as int,
                );
                match new_id {
                    Some(id) => {
                        let occupied = self.layers[layer].tiles.get(x, y).is_some();
                        if occupied {
                            if let Some(tile) = self.layers[layer].tiles.get_mut(x, y) {
                                tile.id = id;
                            }
                        } else {
                            let tile = Tile {
                                id,
                                x: cell_x,
                                y: cell_y,
                                position_x: cell_x * self.tile_width,
                                position_y: cell_y * self.tile_height,
                                rotation: Rotation::Deg0,
                                dest_size: Vec2::new(self.tile_width, self.tile_height),
                            };
                            self.layers[layer].tiles.set(tile, x, y);
                        }
                    },
                    None => {
                        self.layers[layer].tiles.delete(x, y);
                    },
                }
                proof {
                    let grid0 = old(self).layers()[layer as int].grid();
                    let grid1 = self.layers()[layer as int].grid();
                    crate::utils::vecgrid::lemma_write_then_read(
                        grid0,
                        grid1,
                        x as int,
                        y as int,
                        content,
                    );
                    assert forall|l: int, cx: int, cy: int|
                        #![trigger self.tile_at(l, cx, cy)]
                        self.tile_at(l, cx, cy) == if l == layer && old(self).has_layer(l) && old(
                            self,
                        ).pixel_in_cell(position, cx, cy) {
                            old(self).cell_with(old(self).tile_at(l, cx, cy), new_id, cx, cy)
                        } else {
                            old(self).tile_at(l, cx, cy)
                        } by {
                        if l == layer && (cx, cy) != (x as int, y as int) {
                            assert(grid1.at(cx, cy) == grid0.at(cx, cy));
                        }
                    }
                    assert(old(self).tile_at(layer as int, x as int, y as int) matches Some(tile)
                        ==> tile.placed_at(
                        x as int,
                        y as int,
                        self.tile_width(),
                        self.tile_height(),
                    ));
                    self.lemma_wf_from_tiles(*old(self));
                }
            }
        }
    }

    /// Whether `list` gives one identifier for each cell of the map:
    /// one column after the other, each from top to bottom.
    pub open spec fn covers_map(&self, list: Seq<Vec<u32>>) -> bool {
        &&& list.len() == self.width()
        &&& forall|x: int| 0 <= x < list.len() ==> (#[trigger] list[x])@.len() == self.height()
    }

    /// The unturned, unmirrored tile that `list` names for the cell `(x, y)`.
    pub open spec fn listed_tile(&self, list: Seq<Vec<u32>>, x: int, y: int) -> Option<Tile> {
        if self.in_bounds(x, y) {
            Some(Tile::plain(list[x]@[y], x, y, self.tile_width(), self.tile_height()))
        } else {
            None
        }
    }

    /// Fills `layer` with plain tiles, `list[x][y]` naming the tile of the
    /// cell `(x, y)`. If there is no such layer, a new top-most layer with
    /// these tiles is added instead: visible, untinted and without a name.
    pub fn set_tiles_from_map(&mut self, layer: usize, list: &[Vec<u32>])
        requires
            old(self).wf(),
            old(self).covers_map(list@),
            old(self).has_layer(layer as int) || old(self).layer_count() < NO_LAYER,
        ensures
            final(self).wf(),
            final(self).same_frame(*old(self)),
            old(self).has_layer(layer as int) ==> final(self).same_layer_attributes(*old(self)),
            !old(self).has_layer(layer as int) ==> {
                &&& final(self).layer_count() == old(self).layer_count() + 1
                &&& forall|l: int|
                    0 <= l < old(self).layer_count() ==> (#[trigger] final(self).layers()[l]) == old(
                        self,
                    ).layers()[l]
                &&& final(self).layers()[old(self).layer_count() as int].spec_name() == Seq::<
                    char,
                >::empty()
                &&& final(self).layers()[old(self).layer_count() as int].visible()
                &&& final(self).layers()[old(self).layer_count() as int].tint()
                    == Color::spec_white()
            },
            forall|l: int, x: int, y: int|
                #![trigger final(self).tile_at(l, x, y)]
                final(self).tile_at(l, x, y) == if l == old(self).target_layer(layer as int) {
                    old(self).listed_tile(list@, x, y)
                } else {
                    old(self).tile_at(l, x, y)
                },
    {
        let tiles = self.create_tiles_from_map(list);
        proof {
            assert forall|x: int, y: int| #![trigger tiles.at(x, y)] tiles.at(x, y).is_some() implies tiles.at(
                x,
                y,
            ).unwrap().placed_at(x, y, self.tile_width(), self.tile_height()) by {
                assert(tiles.at(x, y) == self.listed_tile(list@, x, y));
                self.lemma_cell_origin_fits(x, y);
            }
        }
        if layer < self.layers.len() {
            self.layers[layer].tiles = tiles;
        } else {
            self.add_layer(tiles);
        }
        proof {
            assert forall|l: int, x: int, y: int|
                #![trigger self.tile_at(l, x, y)]
                self.tile_at(l, x, y) == if l == old(self).target_layer(layer as int) {
                    old(self).listed_tile(list@, x, y)
                } else {
                    old(self).tile_at(l, x, y)
                } by {}
            assert forall|l: int| 0 <= l < self.layer_count() implies {
                &&& (#[trigger] self.layers()[l]).grid().wf()
                &&& self.layers()[l].grid().width() == self.width()
                &&& self.layers()[l].grid().height() == self.height()
            } by {
                if l != old(self).target_layer(layer as int) {
                    assert(old(self).layers()[l].grid().wf());
                }
            }
        }
    }

    /// The layer that an operation on `layer` reaches: `layer` itself if it
    /// exists, else the place of the next new layer.
    pub open spec fn target_layer(&self, layer: int) -> int {
        if self.has_layer(layer) {
            layer
        } else {
            self.layer_count() as int
        }
    }

    /// A grid of the map's size with the plain tiles that `list` names.
    fn create_tiles_from_map(&self, list: &[Vec<u32>]) -> (tiles: VecGrid<Tile>)
        requires
            self.wf(),
            self.covers_map(list@),
        ensures
            tiles.wf(),
            tiles.width() == self.width(),
            tiles.height() == self.height(),
            forall|x: int, y: int| #[trigger] tiles.at(x, y) == self.listed_tile(list@, x, y),
    {
        let mut tiles: VecGrid<Tile> = VecGrid::new(self.width, self.height);
        let mut x: usize = 0;
        while x < list.len()
            invariant
                self.wf(),
                self.covers_map(list@),
                x <= list@.len(),
                tiles.wf(),
                tiles.width() == self.width(),
                tiles.height() == self.height(),
                forall|cx: int, cy: int|
                    #[trigger] tiles.at(cx, cy) == if cx < x {
                        self.listed_tile(list@, cx, cy)
                    } else {
                        None
                    },
            decreases list@.len() - x,
        {
            let row = &list[x];
            let mut y: usize = 0;
            while y < row.len()
                invariant
                    self.wf(),
                    self.covers_map(list@),
                    x < list@.len(),
                    row == list@[x as int],
                    y <= row@.len(),
                    tiles.wf(),
                    tiles.width() == self.width(),
                    tiles.height() == self.height(),
                    forall|cx: int, cy: int|
                        #[trigger] tiles.at(cx, cy) == if cx < x || (cx == x && cy < y) {
                            self.listed_tile(list@, cx, cy)
                        } else {
                            None
                        },
                decreases row@.len() - y,
            {
                proof {
                    self.lemma_cell_origin_fits(x as int, y as int);
                }
                let tile = Tile {
                    id: row[y],
                    x: x as i32,
                    y: y as i32,
                    position_x: x as i32 * self.tile_width,
                    position_y: y as i32 * self.tile_height,
                    rotation: Rotation::Deg0,
                    dest_size: Vec2::new(self.tile_width, self.tile_height),
                };
                tiles.set(tile, x, y);
                y += 1;
            }
            x += 1;
        }
        tiles
    }

    /// Adds a visible, untinted, unnamed layer with the given tiles on top.
    fn add_layer(&mut self, tiles: VecGrid<Tile>)
        requires
            old(self).wf(),
            old(self).layer_count() < NO_LAYER,
            tiles.wf(),
            tiles.width() == old(self).width(),
            tiles.height() == old(self).height(),
            forall|x: int, y: int|
                #![trigger tiles.at(x, y)]
                tiles.at(x, y) matches Some(tile) ==> tile.placed_at(
                    x,
                    y,
                    old(self).tile_width(),
                    old(self).tile_height(),
                ),
        ensures
            final(self).wf(),
            final(self).same_frame(*old(self)),
            final(self).layer_count() == old(self).layer_count() + 1,
            forall|l: int|
                0 <= l < old(self).layer_count() ==> (#[trigger] final(self).layers()[l]) == old(
                    self,
                ).layers()[l],
            final(self).layers()[old(self).layer_count() as int].grid() == tiles,
            final(self).layers()[old(self).layer_count() as int].spec_name() == Seq::<char>::empty(),
            final(self).layers()[old(self).layer_count() as int].visible(),
            final(self).layers()[old(self).layer_count() as int].tint() == Color::spec_white(),
    {
        let layer = Layer { tiles, name: String::new(), visibility: true, color: Color::white() };
        self.layers.push(layer);
        proof {
            assert forall|l: int| 0 <= l < self.layer_count() implies {
                &&& (#[trigger] self.layers()[l]).grid().wf()
                &&& self.layers()[l].grid().width() == self.width()
                &&& self.layers()[l].grid().height() == self.height()
            } by {
                if l < old(self).layer_count() {
                    assert(old(self).layers()[l].grid().wf());
                }
            }
            assert forall|l: int, x: int, y: int|
                #![trigger self.tile_at(l, x, y)]
                self.tile_at(l, x, y).is_some() implies self.tile_at(l, x, y).unwrap().placed_at(
                x,
                y,
                self.tile_width(),
                self.tile_height(),
            ) by {
                if l < old(self).layer_count() {
                    assert(self.tile_at(l, x, y) == old(self).tile_at(l, x, y));
                }
            }
        }
    }

    /// Whether a drawing pass with the filter `layer_to_draw` shows `layer`:
    /// without a filter the visible layers are shown; a filter shows the
    /// one layer it names, visible or not.
    pub open spec fn layer_is_drawn(&self, layer: int, layer_to_draw: Option<usize>) -> bool {
        match layer_to_draw {
            None => self.layers()[layer].visible(),
            Some(only) => only == layer,
        }
    }

    /// The quad that shows `tile` of `layer` on a map drawn at `position`.
    pub open spec fn command_for(&self, layer: int, tile: Tile, position: Vec2) -> DrawCommand {
        DrawCommand {
            x: (position.x + tile.position_x) as i64,
            y: (position.y + tile.position_y) as i64,
            color: self.layers()[layer].tint(),
            dest_size: tile.dest_size,
            source: self.catalog()[tile.id],
            rotation: tile.rotation,
        }
    }

    /// The quads of the populated cells among the first `n` cells of
    /// `layer`, counted row by row, in that order.
    pub open spec fn layer_commands(&self, layer: int, position: Vec2, n: nat) -> Seq<DrawCommand>
        decreases n,
    {
        if n == 0 {
            Seq::empty()
        } else {
            let x = (n - 1) % (self.width() as int);
            let y = (n - 1) / (self.width() as int);
            let before = self.layer_commands(layer, position, (n - 1) as nat);
            match self.tile_at(layer, x, y) {
                Some(tile) => before.push(self.command_for(layer, tile, position)),
                None => before,
            }
        }
    }

    /// The quads of the first `layers` layers, bottom-most layer first.
    pub open spec fn commands(
        &self,
        position: Vec2,
        layer_to_draw: Option<usize>,
        layers: nat,
    ) -> Seq<DrawCommand>
        decreases layers,
    {
        if layers == 0 {
            Seq::empty()
        } else {
            let before = self.commands(position, layer_to_draw, (layers - 1) as nat);
            if self.layer_is_drawn(layers - 1, layer_to_draw) {
                before + self.layer_commands(layers - 1, position, self.width() * self.height())
            } else {
                before
            }
        }
    }

    /// Whether the catalog knows every tile that a drawing pass with the
    /// filter `layer_to_draw` shows.
    pub open spec fn can_draw(&self, layer_to_draw: Option<usize>) -> bool {
        forall|l: int, x: int, y: int|
            #![trigger self.tile_at(l, x, y)]
            self.has_layer(l) && self.layer_is_drawn(l, layer_to_draw) && self.tile_at(l, x, y).is_some()
                ==> self.catalog().contains_key(self.tile_at(l, x, y).unwrap().id)
    }

    /// The quads that show the map with its top-left corner at `position`:
    /// layer by layer from the bottom, and within a layer row by row, one
    /// quad per populated cell. Nothing is returned if a tile that would be
    /// shown is missing from the catalog.
    pub fn draw(&self, position: Vec2, layer_to_draw: Option<usize>) -> (commands: Option<
        Vec<DrawCommand>,
    >)
        requires
            self.wf(),
        ensures
            commands.is_some() == self.can_draw(layer_to_draw),
            commands matches Some(list) ==> list@ == self.commands(
                position,
                layer_to_draw,
                self.layer_count(),
            ),
    {
        broadcast use vstd::std_specs::hash::group_hash_axioms;

        let mut list: Vec<DrawCommand> = Vec::new();
        let mut i: usize = 0;
        while i < self.layers.len()
            invariant
                self.wf(),
                i <= self.layer_count(),
                list@ == self.commands(position, layer_to_draw, i as nat),
                forall|l: int, x: int, y: int|
                    #![trigger self.tile_at(l, x, y)]
                    0 <= l < i && self.layer_is_drawn(l, layer_to_draw) && self.tile_at(
                        l,
                        x,
                        y,
                    ).is_some() ==> self.catalog().contains_key(self.tile_at(l, x, y).unwrap().id),
            decreases self.layer_count() - i,
        {
            let layer = &self.layers[i];
            let drawn = match layer_to_draw {
                None => layer.visibility,
                Some(only) => only == i,
            };
            if drawn {
                let tiles = layer.tiles.get_data();
                let ghost start = list@;
                let mut k: usize = 0;
                while k < tiles.len()
                    invariant
                        self.wf(),
                        i < self.layer_count(),
                        layer == self.layers()[i as int],
                        self.layer_is_drawn(i as int, layer_to_draw),
                        tiles@ == self.layers()[i as int].grid().cells(),
                        tiles@.len() == self.width() * self.height(),
                        k <= tiles@.len(),
                        list@ == start + self.layer_commands(i as int, position, k as nat),
                        forall|j: int|
                            0 <= j < k && (#[trigger] tiles@[j]).is_some()
                                ==> self.catalog().contains_key(tiles@[j].unwrap().id),
                    decreases tiles@.len() - k,
                {
                    proof {
                        self.lemma_cell_index(i as int, k as int);
                    }
                    match &tiles[k] {
                        None => {},
                        Some(tile) => {
                            match self.tile_rectangles.get(&tile.id) {
                                None => {
                                    proof {
                                        let x = (k as int) % (self.width() as int);
                                        let y = (k as int) / (self.width() as int);
                                        assert(self.tile_at(i as int, x, y) == Some(*tile));
                                    }
                                    return None;
                                },
                                Some(source) => {
                                    let command = DrawCommand {
                                        x: position.x as i64 + tile.position_x as i64,
                                        y: position.y as i64 + tile.position_y as i64,
                                        color: layer.color,
                                        dest_size: tile.dest_size,
                                        source: *source,
                                        rotation: tile.rotation,
                                    };
                                    list.push(command);
                                    assert(list@ =~= start + self.layer_commands(
                                        i as int,
                                        position,
                                        (k + 1) as nat,
                                    ));
                                },
                            }
                        },
                    }
                    k += 1;
                }
                proof {
                    assert forall|x: int, y: int|
                        #![trigger self.tile_at(i as int, x, y)]
                        self.tile_at(i as int, x, y).is_some() implies self.catalog().contains_key(
                        self.tile_at(i as int, x, y).unwrap().id,
                    ) by {
                        crate::utils::vecgrid::lemma_index_in_range(
                            x,
                            y,
                            self.width() as int,
                            self.height() as int,
                        );
                        assert(tiles@[x + y * self.width()].is_some());
                    }
                }
            }
            i += 1;
        }
        Some(list)
    }
}

/// Number of whole tiles of width `tile_width` that fit side by side in `clip`.
pub open spec fn atlas_columns(clip: Rect, tile_width: i32) -> int {
    if clip.w > 0 && tile_width > 0 {
        (clip.w as int) / (tile_width as int)
    } else {
        0
    }
}

/// Number of whole tiles of height `tile_height` that fit one above the other in `clip`.
pub open spec fn atlas_rows(clip: Rect, tile_height: i32) -> int {
    if clip.h > 0 && tile_height > 0 {
        (clip.h as int) / (tile_height as int)
    } else {
        0
    }
}

/// The source rectangle of tile `id` in an atlas cut into `columns` tiles per row.
pub open spec fn atlas_rect(clip: Rect, tile_width: i32, tile_height: i32, columns: int, id: int) -> Rect {
    Rect {
        x: (clip.x + (id % columns) * tile_width) as i32,
        y: (clip.y + (id / columns) * tile_height) as i32,
        w: tile_width,
        h: tile_height,
    }
}

/// The catalog of an atlas: the tiles are numbered from 0, row by row, and
/// within a row from left to right.
pub open spec fn catalog_of(clip: Rect, tile_width: i32, tile_height: i32) -> Map<u32, Rect> {
    Map::new(
        |id: u32| id < atlas_rows(clip, tile_height) * atlas_columns(clip, tile_width),
        |id: u32| atlas_rect(clip, tile_width, tile_height, atlas_columns(clip, tile_width), id as int),
    )
}

/// Whether the atlas can be cut into tiles of the given size with every
/// coordinate in the range of `i32` and every identifier in that of `u32`.
pub open spec fn atlas_fits(clip: Rect, tile_width: i32, tile_height: i32) -> bool {
    &&& tile_width > 0
    &&& tile_height > 0
    &&& clip.x + clip.w <= i32::MAX
    &&& clip.y + clip.h <= i32::MAX
    &&& atlas_rows(clip, tile_height) * atlas_columns(clip, tile_width) <= u32::MAX
}

/// Whether the atlas can be cut into tiles of the given size.
pub fn check_atlas(clip: Rect, tile_width: i32, tile_height: i32) -> (ok: bool)
    ensures
        ok == atlas_fits(clip, tile_width, tile_height),
{
    if tile_width > 0 && tile_height > 0 && clip.x as i64 + clip.w as i64 <= 0x7fff_ffff
        && clip.y as i64 + clip.h as i64 <= 0x7fff_ffff {
        let columns: i64 = if clip.w > 0 {
            (clip.w / tile_width) as i64
        } else {
            0
        };
        let rows: i64 = if clip.h > 0 {
            (clip.h / tile_height) as i64
        } else {
            0
        };
        proof {
            if clip.w > 0 {
                lemma_whole_tiles_count(clip.w as int, tile_width as int);
            }
            if clip.h > 0 {
                lemma_whole_tiles_count(clip.h as int, tile_height as int);
            }
            assert(0 <= rows * columns <= 0x8000_0000 * 0x8000_0000) by (nonlinear_arith)
                requires
                    0 <= rows <= 0x8000_0000,
                    0 <= columns <= 0x8000_0000,
            ;
        }
        rows * columns <= 0xffff_ffff
    } else {
        false
    }
}

/// No more whole tiles fit a length than it has pixels.
proof fn lemma_whole_tiles_count(length: int, size: int)
    requires
        length > 0,
        size > 0,
    ensures
        0 <= length / size <= length,
{
    vstd::arithmetic::div_mod::lemma_fundamental_div_mod(length, size);
    vstd::arithmetic::div_mod::lemma_mod_bound(length, size);
    assert(length / size >= 0) by (nonlinear_arith)
        requires
            length > 0,
            size > 0,
    ;
    assert(size * (length / size) >= length / size) by (nonlinear_arith)
        requires
            length / size >= 0,
            size > 0,
    ;
}

/// The tile of a map that the authored, remodelled tile `tile` becomes.
pub open spec fn runtime_tile(tile: pyxeledit::Tile) -> Tile {
    Tile {
        id: tile.id as u32,
        x: tile.x,
        y: tile.y,
        position_x: tile.position_x.unwrap(),
        position_y: tile.position_y.unwrap(),
        rotation: tile.rotation.unwrap(),
        dest_size: tile.dest_size.unwrap(),
    }
}

/// What the first `n` authored tiles leave in the cell `(x, y)`: the last
/// of them that was placed there.
pub open spec fn placed_tile(tiles: Seq<pyxeledit::Tile>, x: int, y: int, n: nat) -> Option<Tile>
    decreases n,
{
    if n == 0 {
        None
    } else if tiles[n - 1].x == x && tiles[n - 1].y == y {
        Some(runtime_tile(tiles[n - 1]))
    } else {
        placed_tile(tiles, x, y, (n - 1) as nat)
    }
}

/// A placeable tile carries the pixel position and the size of its cell.
pub proof fn lemma_placeable_tile(
    tile: pyxeledit::Tile,
    width: int,
    height: int,
    tile_width: i32,
    tile_height: i32,
)
    requires
        tile.placeable(width, height, tile_width, tile_height),
        tile_width > 0,
        tile_height > 0,
        width * tile_width <= i32::MAX,
        height * tile_height <= i32::MAX,
    ensures
        tile.position_x.is_some(),
        tile.position_y.is_some(),
        tile.rotation == Some(pyxeledit::spec_pyxel_rotation(tile.rotation_id)),
        tile.dest_size.is_some(),
        runtime_tile(tile).id == tile.id,
        runtime_tile(tile).dest_size.x == (if tile.flip_x {
            -tile_width
        } else {
            tile_width as int
        }),
        runtime_tile(tile).placed_at(tile.x as int, tile.y as int, tile_width as int, tile_height as int),
{
    let x = tile.x as int;
    let y = tile.y as int;
    let tw = tile_width as int;
    let th = tile_height as int;
    assert(0 <= x * tw <= width * tw) by (nonlinear_arith)
        requires
            0 <= x < width,
            tw > 0,
    ;
    assert(0 <= y * th <= height * th) by (nonlinear_arith)
        requires
            0 <= y < height,
            th > 0,
    ;
}

/// The grid that the authored tiles fill, one after the other.
fn transform_pyxeltile(
    pyxeltiles: &Vec<pyxeledit::Tile>,
    width: usize,
    height: usize,
    tile_width: i32,
    tile_height: i32,
) -> (grid: VecGrid<Tile>)
    requires
        Tilemap::fits(tile_width, tile_height, width, height),
        forall|k: int|
            0 <= k < pyxeltiles@.len() ==> (#[trigger] pyxeltiles@[k]).placeable(
                width as int,
                height as int,
                tile_width,
                tile_height,
            ),
    ensures
        grid.wf(),
        grid.width() == width,
        grid.height() == height,
        forall|x: int, y: int| #[trigger]
            grid.at(x, y) == placed_tile(pyxeltiles@, x, y, pyxeltiles@.len()),
{
    let mut grid: VecGrid<Tile> = VecGrid::new(width, height);
    let mut k: usize = 0;
    while k < pyxeltiles.len()
        invariant
            Tilemap::fits(tile_width, tile_height, width, height),
            forall|j: int|
                0 <= j < pyxeltiles@.len() ==> (#[trigger] pyxeltiles@[j]).placeable(
                    width as int,
                    height as int,
                    tile_width,
                    tile_height,
                ),
            k <= pyxeltiles@.len(),
            grid.wf(),
            grid.width() == width,
            grid.height() == height,
            forall|x: int, y: int| #[trigger] grid.at(x, y) == placed_tile(pyxeltiles@, x, y, k as nat),
        decreases pyxeltiles@.len() - k,
    {
        let t = &pyxeltiles[k];
        proof {
            lemma_placeable_tile(*t, width as int, height as int, tile_width, tile_height);
        }
        match (t.position_x, t.position_y, t.rotation, t.dest_size) {
            (Some(position_x), Some(position_y), Some(rotation), Some(dest_size)) => {
                let tile = Tile {
                    id: t.id as u32,
                    x: t.x,
                    y: t.y,
                    position_x,
                    position_y,
                    rotation,
                    dest_size,
                };
                grid.set(tile, t.x as usize, t.y as usize);
            },
            _ => {},
        }
        k += 1;
    }
    grid
}

/// The layers of a map, made of the authored layers in reverse order.
fn transform_pyxellayer(
    pyxellayers: &Vec<pyxeledit::Layers>,
    width: usize,
    height: usize,
    tile_width: i32,
    tile_height: i32,
) -> (layers: Vec<Layer>)
    requires
        Tilemap::fits(tile_width, tile_height, width, height),
        forall|l: int, k: int|
            0 <= l < pyxellayers@.len() && 0 <= k < pyxellayers@[l].tiles@.len() ==> (
            #[trigger] pyxellayers@[l].tiles@[k]).placeable(
                width as int,
                height as int,
                tile_width,
                tile_height,
            ),
    ensures
        layers@.len() == pyxellayers@.len(),
        forall|l: int|
            0 <= l < layers@.len() ==> is_layer_of(
                #[trigger] layers@[l],
                pyxellayers@[pyxellayers@.len() - 1 - l],
                width,
                height,
            ),
{
    let count = pyxellayers.len();
    let mut layers: Vec<Layer> = Vec::with_capacity(count);
    let mut i: usize = 0;
    while i < count
        invariant
            count == pyxellayers@.len(),
            Tilemap::fits(tile_width, tile_height, width, height),
            forall|l: int, k: int|
                0 <= l < pyxellayers@.len() && 0 <= k < pyxellayers@[l].tiles@.len() ==> (
                #[trigger] pyxellayers@[l].tiles@[k]).placeable(
                    width as int,
                    height as int,
                    tile_width,
                    tile_height,
                ),
            i <= count,
            layers@.len() == i,
            forall|l: int|
                0 <= l < i ==> is_layer_of(
                    #[trigger] layers@[l],
                    pyxellayers@[count - 1 - l],
                    width,
                    height,
                ),
        decreases count - i,
    {
        let pyxellayer = &pyxellayers[count - 1 - i];
        let layer = Layer {
            tiles: transform_pyxeltile(&pyxellayer.tiles, width, height, tile_width, tile_height),
            name: pyxellayer.name.clone(),
            visibility: true,
            color: Color::white(),
        };
        layers.push(layer);
        i += 1;
    }
    layers
}

/// Whether `layer` is the layer of a map of `width` by `height` cells that
/// the authored layer `authored` becomes: visible, untinted, with the
/// authored name and the authored tiles.
pub open spec fn is_layer_of(
    layer: Layer,
    authored: pyxeledit::Layers,
    width: usize,
    height: usize,
) -> bool {
    &&& layer.grid().wf()
    &&& layer.grid().width() == width
    &&& layer.grid().height() == height
    &&& layer.spec_name() == authored.name@
    &&& layer.visible()
    &&& layer.tint() == Color::spec_white()
    &&& forall|x: int, y: int| #[trigger]
        layer.grid().at(x, y) == placed_tile(authored.tiles@, x, y, authored.tiles@.len())
}

/// What the first `n` placeable tiles leave in a cell is correctly placed.
proof fn lemma_placed_tile(
    tiles: Seq<pyxeledit::Tile>,
    x: int,
    y: int,
    n: nat,
    width: int,
    height: int,
    tile_width: i32,
    tile_height: i32,
)
    requires
        n <= tiles.len(),
        tile_width > 0,
        tile_height > 0,
        width * tile_width <= i32::MAX,
        height * tile_height <= i32::MAX,
        forall|k: int|
            0 <= k < tiles.len() ==> (#[trigger] tiles[k]).placeable(
                width,
                height,
                tile_width,
                tile_height,
            ),
    ensures
        placed_tile(tiles, x, y, n) matches Some(tile) ==> tile.placed_at(
            x,
            y,
            tile_width as int,
            tile_height as int,
        ),
    decreases n,
{
    if n > 0 {
        lemma_placeable_tile(tiles[n - 1], width, height, tile_width, tile_height);
        lemma_placed_tile(tiles, x, y, (n - 1) as nat, width, height, tile_width, tile_height);
    }
}

/// The map that the authored, remodelled map becomes.
fn transform_pyxeltilemap(clip: Rect, pyxeltilemap: &PyxelTilemap) -> (map: Tilemap)
    requires
        pyxeltilemap.importable(),
        atlas_fits(clip, pyxeltilemap.tile_width, pyxeltilemap.tile_height),
    ensures
        map.is_import_of(clip, *pyxeltilemap),
{
    proof {
        assert(pyxeltilemap.tileswide <= pyxeltilemap.tileswide * pyxeltilemap.tile_width)
            by (nonlinear_arith)
            requires
                pyxeltilemap.tileswide >= 0,
                pyxeltilemap.tile_width > 0,
        ;
        assert(pyxeltilemap.tileshigh <= pyxeltilemap.tileshigh * pyxeltilemap.tile_height)
            by (nonlinear_arith)
            requires
                pyxeltilemap.tileshigh >= 0,
                pyxeltilemap.tile_height > 0,
        ;
    }
    let width: usize = pyxeltilemap.tileswide as usize;
    let height: usize = pyxeltilemap.tileshigh as usize;
    let map = Tilemap {
        width,
        height,
        viewport: Rect::new(0, 0, 0, 0),
        tile_height: pyxeltilemap.tile_height,
        tile_width: pyxeltilemap.tile_width,
        layers: transform_pyxellayer(
            &pyxeltilemap.layers,
            width,
            height,
            pyxeltilemap.tile_width,
            pyxeltilemap.tile_height,
        ),
        tile_rectangles: get_tile_rectangles(
            clip,
            pyxeltilemap.tile_width,
            pyxeltilemap.tile_height,
        ),
        layer_to_draw: DEFAULT_LAYER_TO_DRAW,
    };
    proof {
        let count = pyxeltilemap.layers@.len() as int;
        assert forall|l: int, x: int, y: int|
            #![trigger map.tile_at(l, x, y)]
            map.tile_at(l, x, y).is_some() implies map.tile_at(l, x, y).unwrap().placed_at(
            x,
            y,
            map.tile_width(),
            map.tile_height(),
        ) by {
            let authored = pyxeltilemap.layers@[count - 1 - l];
            assert(is_layer_of(map.layers()[l], authored, width, height));
            lemma_placed_tile(
                authored.tiles@,
                x,
                y,
                authored.tiles@.len(),
                width as int,
                height as int,
                pyxeltilemap.tile_width,
                pyxeltilemap.tile_height,
            );
        }
        assert forall|l: int| 0 <= l < map.layer_count() implies {
            &&& (#[trigger] map.layers()[l]).grid().wf()
            &&& map.layers()[l].grid().width() == map.width()
            &&& map.layers()[l].grid().height() == map.height()
        } by {
            assert(is_layer_of(map.layers()[l], pyxeltilemap.layers@[count - 1 - l], width, height));
        }
    }
    map
}

/// Cuts the atlas `clip` into tiles, row by row.
pub fn get_tile_rectangles(clip: Rect, tile_width: i32, tile_height: i32) -> (catalog: HashMap<
    u32,
    Rect,
>)
    requires
        atlas_fits(clip, tile_width, tile_height),
    ensures
        catalog@ == catalog_of(clip, tile_width, tile_height),
{
    broadcast use vstd::std_specs::hash::group_hash_axioms;

    let columns: i32 = if clip.w > 0 {
        clip.w / tile_width
    } else {
        0
    };
    let rows: i32 = if clip.h > 0 {
        clip.h / tile_height
    } else {
        0
    };
    let mut catalog: HashMap<u32, Rect> = HashMap::new();
    let mut id: u32 = 0;
    let mut row: i32 = 0;
    while row < rows
        invariant
            atlas_fits(clip, tile_width, tile_height),
            columns == atlas_columns(clip, tile_width),
            rows == atlas_rows(clip, tile_height),
            0 <= row <= rows,
            0 <= columns,
            id == row * columns,
            forall|k: u32| catalog@.contains_key(k) <==> k < id,
            forall|k: u32|
                k < id ==> #[trigger] catalog@[k] == atlas_rect(
                    clip,
                    tile_width,
                    tile_height,
                    columns as int,
                    k as int,
                ),
        decreases rows - row,
    {
        let mut column: i32 = 0;
        while column < columns
            invariant
                atlas_fits(clip, tile_width, tile_height),
                columns == atlas_columns(clip, tile_width),
                rows == atlas_rows(clip, tile_height),
                0 <= row < rows,
                0 <= column <= columns,
                id == row * columns + column,
                forall|k: u32| catalog@.contains_key(k) <==> k < id,
                forall|k: u32|
                    k < id ==> #[trigger] catalog@[k] == atlas_rect(
                        clip,
                        tile_width,
                        tile_height,
                        columns as int,
                        k as int,
                    ),
            decreases columns - column,
        {
            proof {
                lemma_atlas_cell(clip, tile_width, tile_height, row as int, column as int);
            }
            let rectangle = Rect::new(
                clip.x + column * tile_width,
                clip.y + row * tile_height,
                tile_width,
                tile_height,
            );
            catalog.insert(id, rectangle);
            id += 1;
            column += 1;
        }
        proof {
            assert((row + 1) * columns == row * columns + columns) by (nonlinear_arith);
        }
        row += 1;
    }
    assert(catalog@ =~= catalog_of(clip, tile_width, tile_height));
    catalog
}

/// The tile in row `row` and column `column` of the atlas has the number
/// `row * columns + column`, and its rectangle lies inside the atlas.
pub proof fn lemma_atlas_cell(clip: Rect, tile_width: i32, tile_height: i32, row: int, column: int)
    requires
        atlas_fits(clip, tile_width, tile_height),
        0 <= row < atlas_rows(clip, tile_height),
        0 <= column < atlas_columns(clip, tile_width),
    ensures
        ({
            let columns = atlas_columns(clip, tile_width);
            let id = row * columns + column;
            &&& 0 <= id < atlas_rows(clip, tile_height) * columns
            &&& id % columns == column
            &&& id / columns == row
            &&& 0 <= column * tile_width <= clip.w - tile_width
            &&& 0 <= row * tile_height <= clip.h - tile_height
            &&& atlas_rect(clip, tile_width, tile_height, columns, id) == Rect {
                x: (clip.x + column * tile_width) as i32,
                y: (clip.y + row * tile_height) as i32,
                w: tile_width,
                h: tile_height,
            }
        }),
{
    let columns = atlas_columns(clip, tile_width);
    let rows = atlas_rows(clip, tile_height);
    crate::utils::vecgrid::lemma_index_in_range(column, row, columns, rows);
    assert(columns * rows == rows * columns) by (nonlinear_arith);
    vstd::arithmetic::div_mod::lemma_fundamental_div_mod_converse(
        row * columns + column,
        columns,
        row,
        column,
    );
    lemma_whole_tiles(clip.w as int, tile_width as int, column);
    lemma_whole_tiles(clip.h as int, tile_height as int, row);
}

/// The first `length / size` tiles of size `size` lie within `length`.
proof fn lemma_whole_tiles(length: int, size: int, index: int)
    requires
        length > 0,
        size > 0,
        0 <= index < length / size,
    ensures
        0 <= index * size <= length - size,
{
    vstd::arithmetic::div_mod::lemma_fundamental_div_mod(length, size);
    vstd::arithmetic::div_mod::lemma_mod_bound(length, size);
    assert(index * size >= 0) by (nonlinear_arith)
        requires
            index >= 0,
            size > 0,
    ;
    assert((index + 1) * size <= (length / size) * size) by (nonlinear_arith)
        requires
            index + 1 <= length / size,
            size > 0,
    ;
    assert((index + 1) * size == index * size + size) by (nonlinear_arith);
    assert(size * (length / size) == (length / size) * size) by (nonlinear_arith);
}

/// The tile identifiers below `n`.
pub open spec fn ids_below(n: nat) -> Set<u32> {
    Set::new(|id: u32| id < n)
}

/// There are `n` tile identifiers below `n`, as far as identifiers go.
pub proof fn lemma_ids_below(n: nat)
    requires
        n <= u32::MAX,
    ensures
        ids_below(n).finite(),
        ids_below(n).len() == n,
    decreases n,
{
    if n == 0 {
        assert(ids_below(0) =~= Set::<u32>::empty());
    } else {
        lemma_ids_below((n - 1) as nat);
        assert(ids_below(n) =~= ids_below((n - 1) as nat).insert((n - 1) as u32));
    }
}

/// The catalog of an atlas of `rows` rows of `columns` tiles holds exactly
/// `rows * columns` tiles, numbered from 0 without a gap, and the tile
/// numbered `k` has its origin `k % columns` tiles right of and
/// `k / columns` tiles below the origin of the atlas.
pub proof fn lemma_catalog_partition(clip: Rect, tile_width: i32, tile_height: i32)
    requires
        atlas_fits(clip, tile_width, tile_height),
    ensures
        ({
            let catalog = catalog_of(clip, tile_width, tile_height);
            let columns = atlas_columns(clip, tile_width);
            let rows = atlas_rows(clip, tile_height);
            &&& 0 <= rows * columns
            &&& catalog.dom().finite()
            &&& catalog.dom().len() == rows * columns
            &&& forall|id: u32| catalog.contains_key(id) <==> id < rows * columns
            &&& forall|id: u32|
                id < rows * columns ==> {
                    &&& (#[trigger] catalog[id]).x == clip.x + (id % (columns as u32)) * tile_width
                    &&& catalog[id].y == clip.y + (id / (columns as u32)) * tile_height
                    &&& catalog[id].w == tile_width
                    &&& catalog[id].h == tile_height
                }
        }),
{
    let catalog = catalog_of(clip, tile_width, tile_height);
    let columns = atlas_columns(clip, tile_width);
    let rows = atlas_rows(clip, tile_height);
    if clip.w > 0 {
        lemma_whole_tiles_count(clip.w as int, tile_width as int);
    }
    if clip.h > 0 {
        lemma_whole_tiles_count(clip.h as int, tile_height as int);
    }
    assert(0 <= rows * columns) by (nonlinear_arith)
        requires
            0 <= rows,
            0 <= columns,
    ;
    lemma_ids_below((rows * columns) as nat);
    assert(catalog.dom() =~= ids_below((rows * columns) as nat));
    assert forall|id: u32| id < rows * columns implies {
        &&& (#[trigger] catalog[id]).x == clip.x + (id % (columns as u32)) * tile_width
        &&& catalog[id].y == clip.y + (id / (columns as u32)) * tile_height
        &&& catalog[id].w == tile_width
        &&& catalog[id].h == tile_height
    } by {
        assert(columns > 0) by (nonlinear_arith)
            requires
                id < rows * columns,
                0 <= rows,
                0 <= columns,
                0 <= id,
        ;
        crate::utils::vecgrid::lemma_index_split(id as int, columns, rows);
        let row = id as int / columns;
        let column = id as int % columns;
        lemma_atlas_cell(clip, tile_width, tile_height, row, column);
        assert(row * columns + column == id) by (nonlinear_arith)
            requires
                id == column + row * columns,
        ;
    }
}

} // verus!
