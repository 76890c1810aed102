//! The actor on the overworld map: it walks up or down and left or right,
//! each way tried apart, slowed or sped up by the ground, and reports the
//! side level whose entrance it steps on.

use crate::entity::{
    advance_animation, clamp_fine, detect, films, films_wf, is_clear, sample, shifted,
    spec_advance, spec_detect, spec_is_clear, spec_switch, spec_wind_down, switch_animation,
    wind_down_animation, FinePosition, IdRange, Keys, Tick,
};
use crate::scene::game::GameState;
use crate::tilemap::tile_animation::{Film, TileAnimation};
use crate::tilemap::{atlas_rect, Tilemap};
use crate::utils::{Rect, Vec2};
use vstd::prelude::*;

verus! {

/// The distance of a step on plain ground, in thousandths of a pixel.
pub const MOVING_SPEED: i64 = 800;

/// The tile that marks where the actor starts.
pub const SPAWN_ID: u32 = 507;

// The entrances of the side levels.
pub const HAUS: u32 = 508;

pub const CEMETRY: u32 = 509;

pub const ICE: u32 = 518;

pub const SWAMP: u32 = 512;

pub const SAND: u32 = 517;

pub const ZELDA1: u32 = 513;

pub const ZELDA2: u32 = 514;

pub const ZELDA3: u32 = 515;

pub const FOREST: u32 = 516;

/// The tile that marks a secret.
pub const SECRET: u32 = 519;

// The kinds of ground that change the speed.
pub const GROUND_GRASS: u32 = 533;

pub const GROUND_ICE: u32 = 535;

pub const GROUND_ROCK: u32 = 534;

pub const GROUND_SAND: u32 = 536;

pub const GROUND_SWAMP: u32 = 537;

pub const GROUND_WATER: u32 = 524;

/// The first of the tiles that block the way.
pub const BLOCKING_FIRST: u32 = 520;

/// The last of the tiles that block the way.
pub const BLOCKING_LAST: u32 = 532;

/// The time of a frame of the actor's animations, in nanoseconds.
pub const FRAME_TIME: u64 = 80_000_000;

/// What the actor is seen doing.
#[derive(Clone, Copy, Debug, PartialEq, Eq, Hash, Structural)]
pub enum AnimationState {
    WalkLeft,
    WalkRight,
    WalkUp,
    WalkDown,
    StandRight,
    StandLeft,
    StandUp,
    StandDown,
}

/// The four ways to walk.
#[derive(Clone, Copy, Debug, PartialEq, Eq, Structural)]
pub enum Direction {
    Up,
    Down,
    Left,
    Right,
}

impl AnimationState {
    /// The place of the state's animation in the set of animations.
    pub open spec fn spec_index(self) -> int {
        match self {
            AnimationState::WalkLeft => 0,
            AnimationState::WalkRight => 1,
            AnimationState::WalkUp => 2,
            AnimationState::WalkDown => 3,
            AnimationState::StandRight => 4,
            AnimationState::StandLeft => 5,
            AnimationState::StandUp => 6,
            AnimationState::StandDown => 7,
        }
    }

    /// The place of the state's animation in the set of animations.
    pub fn index(self) -> (i: usize)
        ensures
            i == self.spec_index(),
            i < 8,
    {
        match self {
            AnimationState::WalkLeft => 0,
            AnimationState::WalkRight => 1,
            AnimationState::WalkUp => 2,
            AnimationState::WalkDown => 3,
            AnimationState::StandRight => 4,
            AnimationState::StandLeft => 5,
            AnimationState::StandUp => 6,
            AnimationState::StandDown => 7,
        }
    }

    /// The state in which an actor that walked comes to rest; a standing
    /// actor stays as it is.
    pub open spec fn spec_at_rest(self) -> AnimationState {
        match self {
            AnimationState::WalkLeft => AnimationState::StandLeft,
            AnimationState::WalkRight => AnimationState::StandRight,
            AnimationState::WalkUp => AnimationState::StandUp,
            AnimationState::WalkDown => AnimationState::StandDown,
            _ => self,
        }
    }

    /// The state in which an actor that walked comes to rest.
    pub fn at_rest(self) -> (state: AnimationState)
        ensures
            state == self.spec_at_rest(),
    {
        match self {
            AnimationState::WalkLeft => AnimationState::StandLeft,
            AnimationState::WalkRight => AnimationState::StandRight,
            AnimationState::WalkUp => AnimationState::StandUp,
            AnimationState::WalkDown => AnimationState::StandDown,
            _ => self,
        }
    }

    /// Whether the actor walks.
    pub open spec fn spec_walks(self) -> bool {
        self.spec_at_rest() != self
    }

    /// Whether the actor walks.
    pub fn walks(self) -> (walking: bool)
        ensures
            walking == self.spec_walks(),
    {
        match self {
            AnimationState::WalkLeft => true,
            AnimationState::WalkRight => true,
            AnimationState::WalkUp => true,
            AnimationState::WalkDown => true,
            _ => false,
        }
    }

    /// The tiles of the state's animation on the sheet of the actor.
    pub open spec fn spec_tiles(self) -> Seq<u32> {
        match self {
            AnimationState::WalkLeft => seq![10u32, 3u32, 11u32, 3u32],
            AnimationState::WalkRight => seq![8u32, 2u32, 9u32, 2u32],
            AnimationState::WalkUp => seq![6u32, 1u32, 7u32, 1u32],
            AnimationState::WalkDown => seq![4u32, 0u32, 5u32, 0u32],
            AnimationState::StandRight => seq![2u32],
            AnimationState::StandLeft => seq![3u32],
            AnimationState::StandUp => seq![1u32],
            AnimationState::StandDown => seq![0u32],
        }
    }
}

impl Direction {
    /// The state of an actor that walks this way.
    pub open spec fn spec_walk_state(self) -> AnimationState {
        match self {
            Direction::Up => AnimationState::WalkUp,
            Direction::Down => AnimationState::WalkDown,
            Direction::Left => AnimationState::WalkLeft,
            Direction::Right => AnimationState::WalkRight,
        }
    }

    /// The state of an actor that walks this way.
    pub fn walk_state(self) -> (state: AnimationState)
        ensures
            state == self.spec_walk_state(),
    {
        match self {
            Direction::Up => AnimationState::WalkUp,
            Direction::Down => AnimationState::WalkDown,
            Direction::Left => AnimationState::WalkLeft,
            Direction::Right => AnimationState::WalkRight,
        }
    }

    /// The two points of the actor's box, taken from its top-left corner,
    /// that lead when it walks this way.
    pub open spec fn spec_samples(self) -> (Vec2, Vec2) {
        match self {
            Direction::Up => (Vec2 { x: 2, y: 3 }, Vec2 { x: 5, y: 3 }),
            Direction::Down => (Vec2 { x: 2, y: 7 }, Vec2 { x: 5, y: 7 }),
            Direction::Left => (Vec2 { x: 2, y: 3 }, Vec2 { x: 2, y: 7 }),
            Direction::Right => (Vec2 { x: 5, y: 3 }, Vec2 { x: 5, y: 7 }),
        }
    }

    /// The two points of the actor's box that lead when it walks this way.
    pub fn samples(self) -> (points: (Vec2, Vec2))
        ensures
            points == self.spec_samples(),
    {
        match self {
            Direction::Up => (Vec2::new(2, 3), Vec2::new(5, 3)),
            Direction::Down => (Vec2::new(2, 7), Vec2::new(5, 7)),
            Direction::Left => (Vec2::new(2, 3), Vec2::new(2, 7)),
            Direction::Right => (Vec2::new(5, 3), Vec2::new(5, 7)),
        }
    }

    /// Where a step of the length `velocity` this way leads from `position`.
    pub open spec fn spec_step(self, position: FinePosition, velocity: i64) -> FinePosition {
        match self {
            Direction::Up => FinePosition { y: clamp_fine(position.y - velocity) as i64, ..position },
            Direction::Down => FinePosition {
                y: clamp_fine(position.y + velocity) as i64,
                ..position
            },
            Direction::Left => FinePosition {
                x: clamp_fine(position.x - velocity) as i64,
                ..position
            },
            Direction::Right => FinePosition {
                x: clamp_fine(position.x + velocity) as i64,
                ..position
            },
        }
    }

    /// Where a step of the length `velocity` this way leads from `position`.
    pub fn step(self, position: FinePosition, velocity: i64) -> (target: FinePosition)
        requires
            position.wf(),
        ensures
            target == self.spec_step(position, velocity),
            target.wf(),
    {
        match self {
            Direction::Up => FinePosition {
                x: position.x,
                y: shifted(position.y, -(velocity as i128)),
            },
            Direction::Down => FinePosition {
                x: position.x,
                y: shifted(position.y, velocity as i128),
            },
            Direction::Left => FinePosition {
                x: shifted(position.x, -(velocity as i128)),
                y: position.y,
            },
            Direction::Right => FinePosition {
                x: shifted(position.x, velocity as i128),
                y: position.y,
            },
        }
    }
}

/// The way up or down that the keys ask for: up before down; none if
/// neither key is held.
pub open spec fn spec_vertical(keys: Keys) -> Option<Direction> {
    if keys.up {
        Some(Direction::Up)
    } else if keys.down {
        Some(Direction::Down)
    } else {
        None
    }
}

/// The way left or right that the keys ask for: left before right; none
/// if neither key is held.
pub open spec fn spec_horizontal(keys: Keys) -> Option<Direction> {
    if keys.left {
        Some(Direction::Left)
    } else if keys.right {
        Some(Direction::Right)
    } else {
        None
    }
}

/// The way up or down that the keys ask for.
pub fn vertical(keys: Keys) -> (direction: Option<Direction>)
    ensures
        direction == spec_vertical(keys),
{
    if keys.up {
        Some(Direction::Up)
    } else if keys.down {
        Some(Direction::Down)
    } else {
        None
    }
}

/// The way left or right that the keys ask for.
pub fn horizontal(keys: Keys) -> (direction: Option<Direction>)
    ensures
        direction == spec_horizontal(keys),
{
    if keys.left {
        Some(Direction::Left)
    } else if keys.right {
        Some(Direction::Right)
    } else {
        None
    }
}

/// The length of a step on the ground `ground`, in hundredths of the
/// length of a step on plain ground.
pub open spec fn spec_speed_factor(ground: Option<u32>) -> int {
    match ground {
        Some(id) => if id == GROUND_GRASS {
            90
        } else if id == GROUND_ROCK {
            70
        } else if id == GROUND_SAND {
            60
        } else if id == GROUND_ICE {
            110
        } else if id == GROUND_SWAMP {
            40
        } else if id == GROUND_WATER {
            30
        } else {
            100
        },
        None => 100,
    }
}

/// The length of a step on the ground `ground`, in thousandths of a pixel.
pub open spec fn spec_velocity(ground: Option<u32>) -> int {
    MOVING_SPEED * spec_speed_factor(ground) / 100
}

/// The length of a step on the ground `ground`, in thousandths of a pixel.
pub fn velocity(ground: Option<u32>) -> (length: i64)
    ensures
        length == spec_velocity(ground),
        0 < length <= 880,
{
    let factor: i64 = match ground {
        Some(id) => if id == GROUND_GRASS {
            90
        } else if id == GROUND_ROCK {
            70
        } else if id == GROUND_SAND {
            60
        } else if id == GROUND_ICE {
            110
        } else if id == GROUND_SWAMP {
            40
        } else if id == GROUND_WATER {
            30
        } else {
            100
        },
        None => 100,
    };
    MOVING_SPEED * factor / 100
}

/// Whether `id` blocks the way.
pub fn is_id_colliding(id: Option<u32>) -> (colliding: bool)
    ensures
        colliding == blocking().holds(id),
{
    blocking().contains(id)
}

/// The tiles that block the way.
pub open spec fn spec_blocking() -> IdRange {
    IdRange { first: BLOCKING_FIRST, last: BLOCKING_LAST }
}

/// The tiles that block the way.
#[verifier::when_used_as_spec(spec_blocking)]
pub fn blocking() -> (range: IdRange)
    ensures
        range == spec_blocking(),
{
    IdRange { first: BLOCKING_FIRST, last: BLOCKING_LAST }
}

/// Whether an actor with its top-left corner on the pixel `new_position`
/// has walked there freely in the direction `direction`: neither of its
/// two leading points lies on a blocking tile of the layer "map".
pub open spec fn spec_can_walk(direction: Direction, new_position: Vec2, tilemap: &Tilemap) -> bool {
    spec_is_clear(
        tilemap,
        tilemap.layer_id("map"@),
        new_position,
        direction.spec_samples().0,
        direction.spec_samples().1,
        spec_blocking(),
    )
}

/// Whether the actor may walk in the direction `direction` to `new_position`.
pub fn can_walk(direction: Direction, new_position: Vec2, tilemap: &Tilemap) -> (free: bool)
    requires
        tilemap.wf(),
    ensures
        free == spec_can_walk(direction, new_position, tilemap),
{
    let points = direction.samples();
    is_clear(tilemap, tilemap.get_layer_id("map"), new_position, points.0, points.1, blocking())
}

/// Whether the actor may walk left to `new_position`.
pub fn can_walk_left(new_position: Vec2, tilemap: &Tilemap) -> (free: bool)
    requires
        tilemap.wf(),
    ensures
        free == spec_can_walk(Direction::Left, new_position, tilemap),
{
    can_walk(Direction::Left, new_position, tilemap)
}

/// Whether the actor may walk right to `new_position`.
pub fn can_walk_right(new_position: Vec2, tilemap: &Tilemap) -> (free: bool)
    requires
        tilemap.wf(),
    ensures
        free == spec_can_walk(Direction::Right, new_position, tilemap),
{
    can_walk(Direction::Right, new_position, tilemap)
}

/// Whether the actor may walk up to `new_position`.
pub fn can_walk_up(new_position: Vec2, tilemap: &Tilemap) -> (free: bool)
    requires
        tilemap.wf(),
    ensures
        free == spec_can_walk(Direction::Up, new_position, tilemap),
{
    can_walk(Direction::Up, new_position, tilemap)
}

/// Whether the actor may walk down to `new_position`.
pub fn can_walk_down(new_position: Vec2, tilemap: &Tilemap) -> (free: bool)
    requires
        tilemap.wf(),
    ensures
        free == spec_can_walk(Direction::Down, new_position, tilemap),
{
    can_walk(Direction::Down, new_position, tilemap)
}

/// Where the entrance `id` leads. A secret is a trigger that leads nowhere.
pub open spec fn spec_destination(id: u32) -> Option<GameState> {
    if id == HAUS {
        Some(GameState::HOUSE)
    } else if id == CEMETRY {
        Some(GameState::MapCemetery)
    } else if id == ICE {
        Some(GameState::MapIce)
    } else if id == SAND {
        Some(GameState::MapSand)
    } else if id == SWAMP {
        Some(GameState::MapSwamp)
    } else if id == FOREST {
        Some(GameState::MapForest)
    } else if id == ZELDA1 {
        Some(GameState::MapZelda1)
    } else if id == ZELDA2 {
        Some(GameState::MapZelda2)
    } else if id == ZELDA3 {
        Some(GameState::MapZelda3)
    } else {
        None
    }
}

/// Whether the tile `id` is a trigger: an entrance or a secret.
pub open spec fn spec_is_trigger(id: Option<u32>) -> bool {
    id matches Some(i) && (spec_destination(i).is_some() || i == SECRET)
}

/// Where the entrance `id` leads.
pub fn destination(id: u32) -> (state: Option<GameState>)
    ensures
        state == spec_destination(id),
{
    if id == HAUS {
        Some(GameState::HOUSE)
    } else if id == CEMETRY {
        Some(GameState::MapCemetery)
    } else if id == ICE {
        Some(GameState::MapIce)
    } else if id == SAND {
        Some(GameState::MapSand)
    } else if id == SWAMP {
        Some(GameState::MapSwamp)
    } else if id == FOREST {
        Some(GameState::MapForest)
    } else if id == ZELDA1 {
        Some(GameState::MapZelda1)
    } else if id == ZELDA2 {
        Some(GameState::MapZelda2)
    } else if id == ZELDA3 {
        Some(GameState::MapZelda3)
    } else {
        None
    }
}

/// Whether the tile `id` is a trigger.
pub fn is_trigger(id: Option<u32>) -> (trigger: bool)
    ensures
        trigger == spec_is_trigger(id),
{
    match id {
        Some(i) => destination(i).is_some() || i == SECRET,
        None => false,
    }
}

/// What the actor makes of the tile `seen` under its centre when `last_id`
/// is its record: the new record, and the place that it reports. An
/// entrance is reported when the actor steps on it, and not again while the
/// actor stays on it.
pub open spec fn spec_trigger(last_id: Option<u32>, seen: Option<u32>) -> (
    Option<u32>,
    Option<GameState>,
) {
    let (fires, record) = spec_detect(last_id, seen, spec_is_trigger(seen));
    if fires {
        (record, spec_destination(seen.unwrap()))
    } else {
        (record, None)
    }
}

/// The actor on the overworld map.
pub struct PlayerMap {
    position: FinePosition,
    collided: bool,
    last_id: Option<u32>,
    animations: Vec<TileAnimation>,
    animation_state: AnimationState,
}

/// What the actor is, apart from how it is stored.
pub struct PlayerMapView {
    pub position: FinePosition,
    /// Whether the last step was refused.
    pub collided: bool,
    /// The trigger that was recorded last.
    pub last_id: Option<u32>,
    /// The animations, in the order of the states.
    pub films: Seq<Film>,
    pub animation_state: AnimationState,
}

impl PlayerMapView {
    /// What holds of the actor at all times: its position is one, and it
    /// has a well-formed animation for each of its eight states.
    pub open spec fn wf(self) -> bool {
        &&& self.position.wf()
        &&& self.films.len() == 8
        &&& films_wf(self.films)
    }

    /// The pixel nearest to the actor's position.
    pub open spec fn position_rounded(self) -> Vec2 {
        self.position.spec_round()
    }

    /// Whether a step of the length `velocity` in the direction
    /// `direction` is asked for and free from where the actor is.
    pub open spec fn is_free(self, tilemap: &Tilemap, direction: Option<Direction>, velocity: i64) -> bool {
        direction matches Some(way) && spec_can_walk(
            way,
            way.spec_step(self.position, velocity).spec_round(),
            tilemap,
        )
    }

    /// The actor after a try to walk a step of the length `velocity` up or
    /// down and another left or right, as far as either is asked for.
    ///
    /// The two ways are tried apart, each from where the actor is: a step
    /// that is free is taken on its axis, a step that is refused leaves the
    /// actor where it is on that axis and marks it as collided, and neither
    /// has a part in the other. The actor walks the way of the step that it
    /// has taken, the one up or down before the one left or right.
    pub open spec fn walk(
        self,
        tilemap: &Tilemap,
        vertical: Option<Direction>,
        horizontal: Option<Direction>,
        velocity: i64,
    ) -> PlayerMapView {
        let up_down = self.is_free(tilemap, vertical, velocity);
        let left_right = self.is_free(tilemap, horizontal, velocity);
        let facing = if up_down {
            vertical
        } else if left_right {
            horizontal
        } else {
            None
        };
        PlayerMapView {
            position: FinePosition {
                x: if left_right {
                    horizontal.unwrap().spec_step(self.position, velocity).x
                } else {
                    self.position.x
                },
                y: if up_down {
                    vertical.unwrap().spec_step(self.position, velocity).y
                } else {
                    self.position.y
                },
            },
            collided: (vertical.is_some() && !up_down) || (horizontal.is_some() && !left_right),
            films: match facing {
                Some(way) => spec_switch(
                    self.films,
                    self.animation_state.spec_index(),
                    way.spec_walk_state().spec_index(),
                ),
                None => self.films,
            },
            animation_state: match facing {
                Some(way) => way.spec_walk_state(),
                None => self.animation_state,
            },
            ..self
        }
    }

    /// The actor after a tick in which no key asked it to walk: an actor
    /// that walks lets its animation run out, and stands once that has come
    /// to an end.
    pub open spec fn rest(self) -> PlayerMapView {
        if self.animation_state.spec_walks() {
            let current = self.animation_state.spec_index();
            PlayerMapView {
                films: spec_wind_down(self.films, current),
                animation_state: if self.films[current].with_repeating(false).finish() {
                    self.animation_state.spec_at_rest()
                } else {
                    self.animation_state
                },
                ..self
            }
        } else {
            self
        }
    }

    /// The actor after a tick on the map `tilemap`, and the place that it
    /// reports.
    ///
    /// Nothing happens before the starting delay is over. After that the
    /// current animation runs on, the actor walks as the keys ask, up or
    /// down and left or right at once, or comes to rest if no key is held;
    /// it walks at the speed of the ground under its centre, and it reports
    /// the entrance that was under its centre at the start of the tick, if
    /// it has just stepped on it.
    pub open spec fn step(self, tilemap: &Tilemap, tick: Tick) -> (PlayerMapView, Option<GameState>) {
        if !tick.ready {
            (self, None)
        } else {
            let center_x = self.position_rounded().x + 4;
            let center_y = self.position_rounded().y + 4;
            let seen = tilemap.id_at_point(tilemap.layer_id("logic"@), center_x, center_y);
            let ground = tilemap.id_at_point(tilemap.layer_id("background"@), center_x, center_y);
            let animated = PlayerMapView {
                films: spec_advance(self.films, self.animation_state.spec_index(), tick.elapsed),
                collided: false,
                ..self
            };
            let vertical = spec_vertical(tick.keys);
            let horizontal = spec_horizontal(tick.keys);
            let moved = if vertical.is_some() || horizontal.is_some() {
                animated.walk(tilemap, vertical, horizontal, spec_velocity(ground) as i64)
            } else {
                animated.rest()
            };
            let (record, place) = spec_trigger(self.last_id, seen);
            (PlayerMapView { last_id: record, ..moved }, place)
        }
    }
}

impl View for PlayerMap {
    type V = PlayerMapView;

    closed spec fn view(&self) -> PlayerMapView {
        PlayerMapView {
            position: self.position,
            collided: self.collided,
            last_id: self.last_id,
            films: films(self.animations@),
            animation_state: self.animation_state,
        }
    }
}

/// The sheet that the actor's animations are cut from.
pub open spec fn spec_sheet() -> Rect {
    Rect { x: 0, y: 0, w: 104, h: 352 }
}

/// The source rectangle of the tile `id` of the actor's sheet.
pub open spec fn sheet_rect(id: u32) -> Rect {
    atlas_rect(spec_sheet(), 8, 8, 13, id as int)
}

/// Whether `film` is the fresh, repeating animation of `state`.
pub open spec fn is_animation_of(film: Film, state: AnimationState) -> bool {
    &&& film.wf()
    &&& film.frames == state.spec_tiles().map_values(|id: u32| sheet_rect(id))
    &&& film.durations == Seq::new(state.spec_tiles().len(), |i: int| FRAME_TIME)
    &&& film.frame == 0
    &&& film.clock == 0
    &&& film.repeating
}

/// The state whose animation has the place `i` in the set.
pub open spec fn state_at(i: int) -> AnimationState {
    if i == 0 {
        AnimationState::WalkLeft
    } else if i == 1 {
        AnimationState::WalkRight
    } else if i == 2 {
        AnimationState::WalkUp
    } else if i == 3 {
        AnimationState::WalkDown
    } else if i == 4 {
        AnimationState::StandRight
    } else if i == 5 {
        AnimationState::StandLeft
    } else if i == 6 {
        AnimationState::StandUp
    } else {
        AnimationState::StandDown
    }
}

/// The tiles of the animation of `state` on the sheet of the actor.
pub fn tiles(state: AnimationState) -> (ids: Vec<u32>)
    ensures
        ids@ == state.spec_tiles(),
{
    let ids = match state {
        AnimationState::WalkLeft => vec![10u32, 3u32, 11u32, 3u32],
        AnimationState::WalkRight => vec![8u32, 2u32, 9u32, 2u32],
        AnimationState::WalkUp => vec![6u32, 1u32, 7u32, 1u32],
        AnimationState::WalkDown => vec![4u32, 0u32, 5u32, 0u32],
        AnimationState::StandRight => vec![2u32],
        AnimationState::StandLeft => vec![3u32],
        AnimationState::StandUp => vec![1u32],
        AnimationState::StandDown => vec![0u32],
    };
    assert(ids@ =~= state.spec_tiles());
    ids
}

/// The state whose animation has the place `i` in the set.
pub fn state_of(i: usize) -> (state: AnimationState)
    ensures
        state == state_at(i as int),
        i < 8 ==> state.spec_index() == i,
{
    if i == 0 {
        AnimationState::WalkLeft
    } else if i == 1 {
        AnimationState::WalkRight
    } else if i == 2 {
        AnimationState::WalkUp
    } else if i == 3 {
        AnimationState::WalkDown
    } else if i == 4 {
        AnimationState::StandRight
    } else if i == 5 {
        AnimationState::StandLeft
    } else if i == 6 {
        AnimationState::StandUp
    } else {
        AnimationState::StandDown
    }
}

/// The fresh animations of the actor, one for each state, in the order of
/// the states.
pub fn get_animations() -> (animations: Vec<TileAnimation>)
    ensures
        animations@.len() == 8,
        films_wf(films(animations@)),
        forall|i: int| 0 <= i < 8 ==> is_animation_of(#[trigger] films(animations@)[i], state_at(i)),
{
    let sheet = Rect::new(0, 0, 104, 352);
    assert(crate::tilemap::atlas_columns(sheet, 8) == 13);
    assert(crate::tilemap::atlas_rows(sheet, 8) == 44);
    let player_tilemap = Tilemap::new(sheet, 8, 8, 13, 44);
    let mut animations: Vec<TileAnimation> = Vec::with_capacity(8);
    let mut i: usize = 0;
    while i < 8
        invariant
            i <= 8,
            animations@.len() == i,
            sheet == spec_sheet(),
            player_tilemap.catalog() == crate::tilemap::catalog_of(sheet, 8, 8),
            crate::tilemap::atlas_columns(sheet, 8) == 13,
            crate::tilemap::atlas_rows(sheet, 8) == 44,
            forall|k: int| 0 <= k < i ==> is_animation_of(#[trigger] animations@[k]@, state_at(k)),
        decreases 8 - i,
    {
        let state = state_of(i);
        let ids = tiles(state);
        let durations: Vec<u64> = vec![FRAME_TIME];
        assert(durations@ =~= seq![FRAME_TIME]);
        assert(forall|k: int| 0 <= k < ids@.len() ==> (#[trigger] ids@[k]) < 572);
        assert(crate::tilemap::tile_animation::spread(durations@, ids@.len())[0] > 0);
        let animation = TileAnimation::new(&player_tilemap, ids.as_slice(), durations);
        proof {
            assert(animation@.frames =~= state.spec_tiles().map_values(|id: u32| sheet_rect(id)));
            assert(animation@.durations =~= Seq::new(
                state.spec_tiles().len(),
                |k: int| FRAME_TIME,
            ));
        }
        animations.push(animation);
        i += 1;
    }
    proof {
        assert forall|k: int| 0 <= k < 8 implies is_animation_of(
            #[trigger] films(animations@)[k],
            state_at(k),
        ) by {
            assert(is_animation_of(animations@[k]@, state_at(k)));
        }
    }
    animations
}

impl PlayerMap {
    /// The actor on the spot that the map `tilemap` marks as its start: the
    /// first cell of the layer "logic" that holds the tile `SPAWN_ID`. The
    /// map must mark such a spot.
    pub fn new(tilemap: &Tilemap) -> (player: Self)
        requires
            tilemap.wf(),
            tilemap.positions_of(tilemap.layer_id("logic"@), SPAWN_ID).len() > 0,
        ensures
            player@.wf(),
            player@.position == FinePosition::spec_from_pixels(
                tilemap.positions_of(tilemap.layer_id("logic"@), SPAWN_ID)[0],
            ),
            !player@.collided,
            player@.last_id.is_none(),
            player@.animation_state == AnimationState::StandDown,
            forall|i: int| 0 <= i < 8 ==> is_animation_of(#[trigger] player@.films[i], state_at(i)),
    {
        let logic = tilemap.get_layer_id("logic");
        let positions = tilemap.get_all_position_from_id(logic, SPAWN_ID);
        let pos = positions[0];
        PlayerMap {
            position: FinePosition::from_pixels(pos),
            collided: false,
            last_id: None,
            animations: get_animations(),
            animation_state: AnimationState::StandDown,
        }
    }

    /// Lets a tick pass on the map `tilemap`, and reports the place whose
    /// entrance the actor has just stepped on.
    pub fn update(&mut self, tilemap: &Tilemap, tick: Tick) -> (place: Option<GameState>)
        requires
            old(self)@.wf(),
            tilemap.wf(),
        ensures
            final(self)@.wf(),
            (final(self)@, place) == old(self)@.step(tilemap, tick),
    {
        if !tick.ready {
            return None;
        }
        advance_animation(&mut self.animations, self.animation_state.index(), tick.elapsed);
        let center = self.position.round();
        let center_x: i64 = center.x as i64 + 4;
        let center_y: i64 = center.y as i64 + 4;
        let seen = sample(tilemap, tilemap.get_layer_id("logic"), center_x, center_y);
        let ground = sample(tilemap, tilemap.get_layer_id("background"), center_x, center_y);
        self.collided = false;
        let length = velocity(ground);
        let up_down = vertical(tick.keys);
        let left_right = horizontal(tick.keys);
        if up_down.is_some() || left_right.is_some() {
            let start = self.position;
            let mut position = start;
            let mut facing: Option<Direction> = None;
            match up_down {
                Some(direction) => {
                    let target = direction.step(start, length);
                    if can_walk(direction, target.round(), tilemap) {
                        position.y = target.y;
                        facing = Some(direction);
                    } else {
                        self.collided = true;
                    }
                },
                None => {},
            }
            match left_right {
                Some(direction) => {
                    let target = direction.step(start, length);
                    if can_walk(direction, target.round(), tilemap) {
                        position.x = target.x;
                        if facing.is_none() {
                            facing = Some(direction);
                        }
                    } else {
                        self.collided = true;
                    }
                },
                None => {},
            }
            match facing {
                Some(direction) => {
                    let walk = direction.walk_state();
                    switch_animation(&mut self.animations, self.animation_state.index(), walk.index());
                    self.animation_state = walk;
                },
                None => {},
            }
            self.position = position;
        } else if self.animation_state.walks() {
            if wind_down_animation(&mut self.animations, self.animation_state.index()) {
                self.animation_state = self.animation_state.at_rest();
            }
        }
        let (fires, record) = detect(self.last_id, seen, is_trigger(seen));
        self.last_id = record;
        match seen {
            Some(id) => if fires {
                destination(id)
            } else {
                None
            },
            None => None,
        }
    }

    /// The pixel nearest to the actor's position.
    pub fn position_rounded(&self) -> (pixel: Vec2)
        requires
            self@.wf(),
        ensures
            pixel == self@.position_rounded(),
    {
        self.position.round()
    }

    /// The actor's position.
    pub fn position(&self) -> (position: FinePosition)
        ensures
            position == self@.position,
    {
        self.position
    }

    /// Puts the actor on `position`.
    pub fn set_position(&mut self, position: FinePosition)
        requires
            position.wf(),
        ensures
            final(self)@ == (PlayerMapView { position, ..old(self)@ }),
    {
        self.position = position;
    }

    /// The trigger that was recorded last.
    pub fn last_id(&self) -> (id: Option<u32>)
        ensures
            id == self@.last_id,
    {
        self.last_id
    }

    /// Whether the last step was refused.
    pub fn collided(&self) -> (collided: bool)
        ensures
            collided == self@.collided,
    {
        self.collided
    }

    /// What the actor is seen doing.
    pub fn animation_state(&self) -> (state: AnimationState)
        ensures
            state == self@.animation_state,
    {
        self.animation_state
    }

    /// The source rectangle of the frame that shows the actor now.
    pub fn source(&self) -> (source: Option<Rect>)
        requires
            self@.wf(),
        ensures
            source == Some(self@.films[self@.animation_state.spec_index()].source()),
    {
        let i = self.animation_state.index();
        assert(films(self.animations@)[i as int].wf());
        self.animations[i].source()
    }
}

/// A step whose leading points would come to lie on a blocking tile is
/// refused: the actor stays where it is on the axis of that step, and has
/// collided. If no other step is taken, the actor is seen as before.
pub proof fn lemma_blocked_step(
    actor: PlayerMapView,
    tilemap: &Tilemap,
    vertical: Option<Direction>,
    horizontal: Option<Direction>,
    velocity: i64,
)
    ensures
        vertical.is_some() && !actor.is_free(tilemap, vertical, velocity) ==> {
            &&& actor.walk(tilemap, vertical, horizontal, velocity).position.y == actor.position.y
            &&& actor.walk(tilemap, vertical, horizontal, velocity).collided
        },
        horizontal.is_some() && !actor.is_free(tilemap, horizontal, velocity) ==> {
            &&& actor.walk(tilemap, vertical, horizontal, velocity).position.x == actor.position.x
            &&& actor.walk(tilemap, vertical, horizontal, velocity).collided
        },
        !actor.is_free(tilemap, vertical, velocity) && !actor.is_free(tilemap, horizontal, velocity)
            ==> {
            &&& actor.walk(tilemap, vertical, horizontal, velocity).position == actor.position
            &&& actor.walk(tilemap, vertical, horizontal, velocity).animation_state
                == actor.animation_state
            &&& actor.walk(tilemap, vertical, horizontal, velocity).films == actor.films
        },
{
}

/// A step whose way is free is taken on its axis, whatever becomes of the
/// step on the other axis, and the actor walks the way of a step that it
/// has taken.
pub proof fn lemma_free_step(
    actor: PlayerMapView,
    tilemap: &Tilemap,
    vertical: Option<Direction>,
    horizontal: Option<Direction>,
    velocity: i64,
)
    ensures
        actor.is_free(tilemap, vertical, velocity) ==> {
            &&& actor.walk(tilemap, vertical, horizontal, velocity).position.y
                == vertical.unwrap().spec_step(actor.position, velocity).y
            &&& actor.walk(tilemap, vertical, horizontal, velocity).animation_state
                == vertical.unwrap().spec_walk_state()
        },
        actor.is_free(tilemap, horizontal, velocity) ==> {
            &&& actor.walk(tilemap, vertical, horizontal, velocity).position.x
                == horizontal.unwrap().spec_step(actor.position, velocity).x
            &&& !actor.is_free(tilemap, vertical, velocity) ==> actor.walk(
                tilemap,
                vertical,
                horizontal,
                velocity,
            ).animation_state == horizontal.unwrap().spec_walk_state()
        },
        (vertical.is_none() || actor.is_free(tilemap, vertical, velocity)) && (horizontal.is_none()
            || actor.is_free(tilemap, horizontal, velocity)) ==> !actor.walk(
            tilemap,
            vertical,
            horizontal,
            velocity,
        ).collided,
{
}

/// Neither axis has a part in the other: where the actor comes to be on
/// one axis is the same whatever is asked for, or refused, on the other.
pub proof fn lemma_axes_apart(
    actor: PlayerMapView,
    tilemap: &Tilemap,
    vertical: Option<Direction>,
    horizontal: Option<Direction>,
    other: Option<Direction>,
    velocity: i64,
)
    ensures
        actor.walk(tilemap, vertical, horizontal, velocity).position.y == actor.walk(
            tilemap,
            vertical,
            other,
            velocity,
        ).position.y,
        actor.walk(tilemap, vertical, horizontal, velocity).position.x == actor.walk(
            tilemap,
            other,
            horizontal,
            velocity,
        ).position.x,
{
}

/// Whether a step is free goes by the two leading points alone: it is
/// free exactly when neither lies on a tile from 520 to 532 of the layer
/// "map".
pub proof fn lemma_step_probes(direction: Direction, new_position: Vec2, tilemap: &Tilemap)
    ensures
        spec_can_walk(direction, new_position, tilemap) <==> {
            let layer = tilemap.layer_id("map"@);
            let first = tilemap.id_at_point(
                layer,
                new_position.x + direction.spec_samples().0.x,
                new_position.y + direction.spec_samples().0.y,
            );
            let second = tilemap.id_at_point(
                layer,
                new_position.x + direction.spec_samples().1.x,
                new_position.y + direction.spec_samples().1.y,
            );
            &&& !(first matches Some(id) && BLOCKING_FIRST <= id <= BLOCKING_LAST)
            &&& !(second matches Some(id) && BLOCKING_FIRST <= id <= BLOCKING_LAST)
        },
{
}

/// An actor that stands on an entrance reports it once: in the tick in
/// which it steps on it, and in no tick after that while it stays.
pub proof fn lemma_entrance_once(last_id: Option<u32>, seen: Option<u32>)
    requires
        spec_is_trigger(seen),
        last_id != seen,
    ensures
        ({
            let first = spec_trigger(last_id, seen);
            let second = spec_trigger(first.0, seen);
            let third = spec_trigger(second.0, seen);
            &&& first.1 == spec_destination(seen.unwrap())
            &&& first.0 == seen
            &&& second.1.is_none()
            &&& third.1.is_none()
            &&& third.0 == seen
        }),
{
}

/// An actor that leaves an entrance for a spot without a tile and comes
/// back reports the entrance again, once.
pub proof fn lemma_entrance_again(last_id: Option<u32>, seen: Option<u32>)
    requires
        spec_is_trigger(seen),
    ensures
        ({
            let away = spec_trigger(last_id, None);
            let back = spec_trigger(away.0, seen);
            let stay = spec_trigger(back.0, seen);
            &&& away.1.is_none()
            &&& away.0.is_none()
            &&& back.1 == spec_destination(seen.unwrap())
            &&& stay.1.is_none()
        }),
{
}

} // verus!
