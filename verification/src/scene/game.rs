//! The places of the game and the way from one to the next.

use crate::tilemap::Tilemap;
use crate::utils::Vec2;
use vstd::prelude::*;

verus! {

/// Where the game is: on the overworld map, on the way into a side level
/// (`Map...`), or in one.
#[allow(non_camel_case_types)]
#[derive(Clone, Copy, Debug, PartialEq, Eq, Hash, Structural)]
pub enum GameState {
    SideMap,
    MAP,
    MapHouse,
    HOUSE,
    MapCemetery,
    CEMETERY,
    MapIce,
    ICE,
    MapForest,
    FOREST,
    MapSwamp,
    SWAMP,
    MapSand,
    SAND,
    MapZelda1,
    ZELDA1,
    MapZelda2,
    ZELDA2,
    MapZelda3,
    ZELDA3,
}

/// The number of ingredients that opens the house.
pub const INGREDIENTS_NEEDED: u8 = 4;

impl GameState {
    /// The side level that the way in `self` leads to, if `self` is a way
    /// into a side level with a map of its own.
    pub open spec fn spec_level(self) -> Option<GameState> {
        match self {
            GameState::MapCemetery => Some(GameState::CEMETERY),
            GameState::MapIce => Some(GameState::ICE),
            GameState::MapSwamp => Some(GameState::SWAMP),
            GameState::MapForest => Some(GameState::FOREST),
            GameState::MapZelda1 => Some(GameState::ZELDA1),
            GameState::MapZelda2 => Some(GameState::ZELDA2),
            GameState::MapZelda3 => Some(GameState::ZELDA3),
            _ => None,
        }
    }

    /// The side level that the way in `self` leads to.
    pub fn level(self) -> (level: Option<GameState>)
        ensures
            level == self.spec_level(),
    {
        match self {
            GameState::MapCemetery => Some(GameState::CEMETERY),
            GameState::MapIce => Some(GameState::ICE),
            GameState::MapSwamp => Some(GameState::SWAMP),
            GameState::MapForest => Some(GameState::FOREST),
            GameState::MapZelda1 => Some(GameState::ZELDA1),
            GameState::MapZelda2 => Some(GameState::ZELDA2),
            GameState::MapZelda3 => Some(GameState::ZELDA3),
            _ => None,
        }
    }

    /// Whether the sky is drawn behind the level that the way in `self`
    /// leads to: behind all but the first two of the bonus levels.
    pub open spec fn spec_draws_sky(self) -> bool {
        self != GameState::MapZelda1 && self != GameState::MapZelda2
    }

    /// Whether the sky is drawn behind the level that `self` leads to.
    pub fn draws_sky(self) -> (sky: bool)
        ensures
            sky == self.spec_draws_sky(),
    {
        match self {
            GameState::MapZelda1 => false,
            GameState::MapZelda2 => false,
            _ => true,
        }
    }
}

/// Where the game goes from `current` when the actor on the overworld
/// reports `report`: to the place reported, except that the house is
/// entered only with all the ingredients.
pub open spec fn spec_enter(current: GameState, report: Option<GameState>, ingredients: u8) -> GameState {
    match report {
        Some(place) => if place == GameState::HOUSE && ingredients != INGREDIENTS_NEEDED {
            current
        } else {
            place
        },
        None => current,
    }
}

/// Where the game goes from `current` when the actor reports `report`.
pub fn enter(current: GameState, report: Option<GameState>, ingredients: u8) -> (next: GameState)
    ensures
        next == spec_enter(current, report, ingredients),
{
    match report {
        Some(place) => {
            let house = match place {
                GameState::HOUSE => true,
                _ => false,
            };
            if house && ingredients != INGREDIENTS_NEEDED {
                current
            } else {
                place
            }
        },
        None => current,
    }
}

/// The pixels around the pixel `center` whose decoration a secret takes
/// away: one tile below, above, right and left of it.
pub open spec fn around(center: Vec2) -> Seq<Vec2> {
    seq![
        Vec2 { x: center.x, y: (center.y + 8) as i32 },
        Vec2 { x: center.x, y: (center.y - 8) as i32 },
        Vec2 { x: (center.x + 8) as i32, y: center.y },
        Vec2 { x: (center.x - 8) as i32, y: center.y },
    ]
}

/// Whether the secret found at the pixel `center` of the map `before`
/// empties the cell `(x, y)` of `layer`: the cell of the layer "logic" under
/// that pixel, and the cells of the layer "deco" under the four pixels
/// around it.
pub open spec fn is_revealed(before: Tilemap, center: Vec2, layer: int, x: int, y: int) -> bool {
    ||| (layer == before.layer_id("logic"@) && before.has_layer(layer) && before.pixel_in_cell(
        center,
        x,
        y,
    ))
    ||| (layer == before.layer_id("deco"@) && before.has_layer(layer) && exists|i: int|
        0 <= i < 4 && before.pixel_in_cell(#[trigger] around(center)[i], x, y))
}

/// Takes away what hides a secret that the actor has found with its
/// centre on the pixel `center`: the decoration on the four tiles around
/// it, and the mark of the secret itself.
pub fn reveal_secret(tilemap: &mut Tilemap, center: Vec2)
    requires
        old(tilemap).wf(),
        -2_000_000_100 <= center.x <= 2_000_000_100,
        -2_000_000_100 <= center.y <= 2_000_000_100,
    ensures
        final(tilemap).wf(),
        final(tilemap).same_frame(*old(tilemap)),
        final(tilemap).same_layer_attributes(*old(tilemap)),
        forall|l: int, x: int, y: int|
            #![trigger final(tilemap).tile_at(l, x, y)]
            final(tilemap).tile_at(l, x, y) == if is_revealed(*old(tilemap), center, l, x, y) {
                None
            } else {
                old(tilemap).tile_at(l, x, y)
            },
{
    let deco = tilemap.get_layer_id("deco");
    let logic = tilemap.get_layer_id("logic");
    let ghost spots = around(center);
    tilemap.set_tileid_at(deco, None, Vec2::new(center.x, center.y + 8));
    let ghost first = *tilemap;
    tilemap.set_tileid_at(deco, None, Vec2::new(center.x, center.y - 8));
    let ghost second = *tilemap;
    tilemap.set_tileid_at(deco, None, Vec2::new(center.x + 8, center.y));
    let ghost third = *tilemap;
    tilemap.set_tileid_at(deco, None, Vec2::new(center.x - 8, center.y));
    let ghost fourth = *tilemap;
    tilemap.set_tileid_at(logic, None, center);
    proof {
        let before = *old(tilemap);
        assert forall|l: int, x: int, y: int|
            #![trigger tilemap.tile_at(l, x, y)]
            tilemap.tile_at(l, x, y) == if is_revealed(before, center, l, x, y) {
                None
            } else {
                before.tile_at(l, x, y)
            } by {
            assert(first.tile_at(l, x, y) == if l == deco && before.has_layer(l)
                && before.pixel_in_cell(spots[0], x, y) {
                None
            } else {
                before.tile_at(l, x, y)
            });
            assert(second.tile_at(l, x, y) == if l == deco && before.has_layer(l)
                && before.pixel_in_cell(spots[1], x, y) {
                None
            } else {
                first.tile_at(l, x, y)
            });
            assert(third.tile_at(l, x, y) == if l == deco && before.has_layer(l)
                && before.pixel_in_cell(spots[2], x, y) {
                None
            } else {
                second.tile_at(l, x, y)
            });
            assert(fourth.tile_at(l, x, y) == if l == deco && before.has_layer(l)
                && before.pixel_in_cell(spots[3], x, y) {
                None
            } else {
                third.tile_at(l, x, y)
            });
            assert(tilemap.tile_at(l, x, y) == if l == logic && before.has_layer(l)
                && before.pixel_in_cell(center, x, y) {
                None
            } else {
                fourth.tile_at(l, x, y)
            });
        }
    }
}

} // verus!
