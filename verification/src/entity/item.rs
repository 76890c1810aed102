//! A thing that lies on a map and is found by walking over it.

use crate::entity::FinePosition;
use crate::tilemap::tile_animation::{Film, TileAnimation};
use crate::tilemap::Tilemap;
use crate::utils::{Rect, Vec2};
use vstd::prelude::*;

verus! {

/// The kinds of things.
#[allow(non_camel_case_types)]
#[derive(Clone, Copy, Debug, PartialEq, Eq, Hash, Structural)]
pub enum ItemType {
    FLOWER,
}

/// The first tile of the animation of a thing.
pub const FIRST_TILE: u32 = 12;

/// The second tile of the animation of a thing.
pub const SECOND_TILE: u32 = 24;

/// The time of a frame of the animation of a thing, in nanoseconds.
pub const FRAME_TIME: u64 = 80_000_000;

/// The width and the height of a thing in thousandths of a pixel.
pub const SIZE_FINE: i64 = 8000;

/// A thing on a map.
pub struct Item {
    item_type: ItemType,
    position: FinePosition,
    animation: TileAnimation,
    active: bool,
}

/// What a thing is, apart from how it is stored.
pub struct ItemView {
    pub item_type: ItemType,
    /// The top-left corner of the box of the thing.
    pub position: FinePosition,
    pub film: Film,
    pub active: bool,
}

impl ItemView {
    /// Whether `point` lies in the box of the thing: its left and top edges
    /// belong to the box, its right and bottom edges do not.
    pub open spec fn covers(self, point: FinePosition) -> bool {
        &&& self.position.x <= point.x < self.position.x + SIZE_FINE
        &&& self.position.y <= point.y < self.position.y + SIZE_FINE
    }
}

impl View for Item {
    type V = ItemView;

    closed spec fn view(&self) -> ItemView {
        ItemView {
            item_type: self.item_type,
            position: self.position,
            film: self.animation@,
            active: self.active,
        }
    }
}

impl Item {
    /// An active thing of the kind `item_type` at `position`, shown by two
    /// tiles of `tilemap` in turn, which the catalog of the map must know.
    pub fn new(item_type: ItemType, position: FinePosition, tilemap: &Tilemap) -> (item: Self)
        requires
            tilemap.catalog().contains_key(FIRST_TILE),
            tilemap.catalog().contains_key(SECOND_TILE),
        ensures
            item@.item_type == item_type,
            item@.position == position,
            item@.active,
            item@.film.wf(),
            item@.film.is_fresh(tilemap, seq![FIRST_TILE, SECOND_TILE], seq![FRAME_TIME]),
            item@.film.repeating,
    {
        let ids: Vec<u32> = vec![FIRST_TILE, SECOND_TILE];
        let durations: Vec<u64> = vec![FRAME_TIME];
        assert(ids@ =~= seq![FIRST_TILE, SECOND_TILE]);
        assert(durations@ =~= seq![FRAME_TIME]);
        assert(crate::tilemap::tile_animation::spread(durations@, ids@.len())[0] > 0);
        let animation = TileAnimation::new(tilemap, ids.as_slice(), durations);
        Item { item_type, position, animation, active: true }
    }

    /// The kind of the thing, if `position_to_check` lies in its box.
    pub fn update(&mut self, position_to_check: FinePosition) -> (found: Option<ItemType>)
        requires
            old(self)@.position.wf(),
        ensures
            final(self)@ == old(self)@,
            found == if old(self)@.covers(position_to_check) {
                Some(old(self)@.item_type)
            } else {
                None
            },
    {
        if self.position.x <= position_to_check.x && position_to_check.x < self.position.x
            + SIZE_FINE && self.position.y <= position_to_check.y && position_to_check.y
            < self.position.y + SIZE_FINE {
            Some(self.item_type)
        } else {
            None
        }
    }

    /// The pixel nearest to the position of the thing.
    pub fn position(&self) -> (pixel: Vec2)
        requires
            self@.position.wf(),
        ensures
            pixel == self@.position.spec_round(),
    {
        self.position.round()
    }

    /// The source rectangle of the frame that shows the thing now.
    pub fn source(&self) -> (source: Option<Rect>)
        requires
            self@.film.wf(),
        ensures
            source == Some(self@.film.source()),
    {
        self.animation.source()
    }
}

} // verus!
