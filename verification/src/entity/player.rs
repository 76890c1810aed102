//! The plain actor on a map: it walks up or down and left or right, each
//! way tried apart, at a speed that goes by the time of the tick, and has
//! no animation.

use crate::entity::player_map::{horizontal, spec_horizontal, spec_vertical, vertical, Direction};
use crate::entity::{
    is_clear, spec_is_clear, FinePosition, IdRange, Tick,
};
use crate::tilemap::Tilemap;
use crate::utils::{Rect, Vec2};
use vstd::prelude::*;

verus! {

/// The tile that marks where the actor starts, and that shows the actor.
pub const SPAWN_ID: u32 = 507;

/// The tile that blocks the way.
pub const BLOCKING_ID: u32 = 520;

/// The speed of the actor in pixels per second.
pub const MOVING_SPEED: i128 = 24;

/// The two corners of the actor's box, taken from its top-left corner,
/// that lead when it walks in the direction `direction`.
pub open spec fn spec_samples(direction: Direction) -> (Vec2, Vec2) {
    match direction {
        Direction::Up => (Vec2 { x: 0, y: 0 }, Vec2 { x: 8, y: 0 }),
        Direction::Down => (Vec2 { x: 0, y: 8 }, Vec2 { x: 8, y: 8 }),
        Direction::Left => (Vec2 { x: 0, y: 0 }, Vec2 { x: 0, y: 8 }),
        Direction::Right => (Vec2 { x: 8, y: 0 }, Vec2 { x: 8, y: 8 }),
    }
}

/// The two corners of the actor's box that lead when it walks in the
/// direction `direction`.
pub fn samples(direction: Direction) -> (points: (Vec2, Vec2))
    ensures
        points == spec_samples(direction),
{
    match direction {
        Direction::Up => (Vec2::new(0, 0), Vec2::new(8, 0)),
        Direction::Down => (Vec2::new(0, 8), Vec2::new(8, 8)),
        Direction::Left => (Vec2::new(0, 0), Vec2::new(0, 8)),
        Direction::Right => (Vec2::new(8, 0), Vec2::new(8, 8)),
    }
}

/// The tiles that block the way.
pub open spec fn spec_blocking() -> IdRange {
    IdRange { first: BLOCKING_ID, last: BLOCKING_ID }
}

/// Whether an actor at `new_position` has walked there freely in the
/// direction `direction`: neither of its two leading corners lies on a
/// blocking tile of the layer "map".
pub open spec fn spec_can_walk(direction: Direction, new_position: FinePosition, tilemap: &Tilemap) -> bool {
    spec_is_clear(
        tilemap,
        tilemap.layer_id("map"@),
        new_position.spec_floor(),
        spec_samples(direction).0,
        spec_samples(direction).1,
        spec_blocking(),
    )
}

/// Whether the actor may walk in the direction `direction` to `new_position`.
pub fn can_walk(direction: Direction, new_position: FinePosition, tilemap: &Tilemap) -> (free: bool)
    requires
        tilemap.wf(),
        new_position.wf(),
    ensures
        free == spec_can_walk(direction, new_position, tilemap),
{
    let points = samples(direction);
    is_clear(
        tilemap,
        tilemap.get_layer_id("map"),
        new_position.floor(),
        points.0,
        points.1,
        IdRange { first: BLOCKING_ID, last: BLOCKING_ID },
    )
}

/// Whether the actor may walk left to `new_position`.
pub fn can_walk_left(new_position: FinePosition, tilemap: &Tilemap) -> (free: bool)
    requires
        tilemap.wf(),
        new_position.wf(),
    ensures
        free == spec_can_walk(Direction::Left, new_position, tilemap),
{
    can_walk(Direction::Left, new_position, tilemap)
}

/// Whether the actor may walk right to `new_position`.
pub fn can_walk_right(new_position: FinePosition, tilemap: &Tilemap) -> (free: bool)
    requires
        tilemap.wf(),
        new_position.wf(),
    ensures
        free == spec_can_walk(Direction::Right, new_position, tilemap),
{
    can_walk(Direction::Right, new_position, tilemap)
}

/// Whether the actor may walk up to `new_position`.
pub fn can_walk_up(new_position: FinePosition, tilemap: &Tilemap) -> (free: bool)
    requires
        tilemap.wf(),
        new_position.wf(),
    ensures
        free == spec_can_walk(Direction::Up, new_position, tilemap),
{
    can_walk(Direction::Up, new_position, tilemap)
}

/// Whether the actor may walk down to `new_position`.
pub fn can_walk_down(new_position: FinePosition, tilemap: &Tilemap) -> (free: bool)
    requires
        tilemap.wf(),
        new_position.wf(),
    ensures
        free == spec_can_walk(Direction::Down, new_position, tilemap),
{
    can_walk(Direction::Down, new_position, tilemap)
}

/// The way in thousandths of a pixel that the actor makes in `elapsed`
/// nanoseconds, rounded down.
pub open spec fn spec_stride(elapsed: u64) -> int {
    (MOVING_SPEED * elapsed) / 1_000_000
}

/// The way that the actor makes in `elapsed` nanoseconds.
pub fn stride(elapsed: u64) -> (way: i64)
    ensures
        way == spec_stride(elapsed),
        0 <= way,
{
    let way: i128 = (MOVING_SPEED * elapsed as i128) / 1_000_000;
    way as i64
}

/// The plain actor on a map.
pub struct Player {
    position: FinePosition,
    source: Option<Rect>,
    collided: bool,
}

/// What the actor is, apart from how it is stored.
pub struct PlayerView {
    pub position: FinePosition,
    /// The source rectangle that shows the actor.
    pub source: Option<Rect>,
    /// Whether the last step was refused.
    pub collided: bool,
}

impl PlayerView {
    /// Whether a step of the length `way` in the direction `direction` is
    /// asked for and free from where the actor is.
    pub open spec fn is_free(self, tilemap: &Tilemap, direction: Option<Direction>, way: i64) -> bool {
        direction matches Some(heading) && spec_can_walk(
            heading,
            heading.spec_step(self.position, way),
            tilemap,
        )
    }

    /// The actor after a tick on the map `tilemap`. It tries to make the
    /// way of the tick up or down, and left or right, as the keys ask. The
    /// two ways are tried apart, each from where the actor is: a step that
    /// is free is taken on its axis, and one that is refused leaves the actor
    /// where it is on that axis and marks it as collided.
    pub open spec fn step(self, tilemap: &Tilemap, tick: Tick) -> PlayerView {
        let way = spec_stride(tick.elapsed) as i64;
        let vertical = spec_vertical(tick.keys);
        let horizontal = spec_horizontal(tick.keys);
        let up_down = self.is_free(tilemap, vertical, way);
        let left_right = self.is_free(tilemap, horizontal, way);
        PlayerView {
            position: FinePosition {
                x: if left_right {
                    horizontal.unwrap().spec_step(self.position, way).x
                } else {
                    self.position.x
                },
                y: if up_down {
                    vertical.unwrap().spec_step(self.position, way).y
                } else {
                    self.position.y
                },
            },
            collided: (vertical.is_some() && !up_down) || (horizontal.is_some() && !left_right),
            ..self
        }
    }
}

impl View for Player {
    type V = PlayerView;

    closed spec fn view(&self) -> PlayerView {
        PlayerView { position: self.position, source: self.source, collided: self.collided }
    }
}

impl Player {
    /// The actor on the spot that the map `tilemap` marks as its start: the
    /// first cell of the layer "logic" that holds the tile `SPAWN_ID`. The
    /// map must mark such a spot, and its catalog must know that tile.
    pub fn new(tilemap: &Tilemap) -> (player: Self)
        requires
            tilemap.wf(),
            tilemap.positions_of(tilemap.layer_id("logic"@), SPAWN_ID).len() > 0,
            tilemap.catalog().contains_key(SPAWN_ID),
        ensures
            player@.position.wf(),
            player@.position == FinePosition::spec_from_pixels(
                tilemap.positions_of(tilemap.layer_id("logic"@), SPAWN_ID)[0],
            ),
            player@.source == Some(tilemap.catalog()[SPAWN_ID]),
            !player@.collided,
    {
        let logic = tilemap.get_layer_id("logic");
        let positions = tilemap.get_all_position_from_id(logic, SPAWN_ID);
        Player {
            position: FinePosition::from_pixels(positions[0]),
            source: Some(tilemap.get_clip_from_id(SPAWN_ID)),
            collided: false,
        }
    }

    /// Lets a tick pass on the map `tilemap`.
    pub fn update_map(&mut self, tilemap: &Tilemap, tick: Tick)
        requires
            old(self)@.position.wf(),
            tilemap.wf(),
        ensures
            final(self)@.position.wf(),
            final(self)@ == old(self)@.step(tilemap, tick),
    {
        self.collided = false;
        let way = stride(tick.elapsed);
        let start = self.position;
        let mut position = start;
        match vertical(tick.keys) {
            Some(direction) => {
                let target = direction.step(start, way);
                if can_walk(direction, target, tilemap) {
                    position.y = target.y;
                } else {
                    self.collided = true;
                }
            },
            None => {},
        }
        match horizontal(tick.keys) {
            Some(direction) => {
                let target = direction.step(start, way);
                if can_walk(direction, target, tilemap) {
                    position.x = target.x;
                } else {
                    self.collided = true;
                }
            },
            None => {},
        }
        self.position = position;
    }

    /// The pixel four pixels left of and above the actor's.
    pub fn position_center(&self) -> (pixel: Vec2)
        requires
            self@.position.wf(),
        ensures
            pixel.x == self@.position.spec_round().x - 4,
            pixel.y == self@.position.spec_round().y - 4,
    {
        let rounded = self.position.round();
        Vec2::new(rounded.x - 4, rounded.y - 4)
    }

    /// The pixel nearest to the actor's position.
    pub fn position(&self) -> (pixel: Vec2)
        requires
            self@.position.wf(),
        ensures
            pixel == self@.position.spec_round(),
    {
        self.position.round()
    }

    /// The actor's position.
    pub fn fine_position(&self) -> (position: FinePosition)
        ensures
            position == self@.position,
    {
        self.position
    }

    /// The source rectangle that shows the actor.
    pub fn source(&self) -> (source: Option<Rect>)
        ensures
            source == self@.source,
    {
        self.source
    }

    /// Whether the last step was refused.
    pub fn collided(&self) -> (collided: bool)
        ensures
            collided == self@.collided,
    {
        self.collided
    }
}

} // verus!
