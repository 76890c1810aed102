//! The actor in a side level: it runs, slides to a stop, jumps and falls,
//! picks up what it walks over, and leaves through the exit.

use crate::entity::{
    advance_animation, clamp_fine, films, films_wf, is_clear, reset_animations, sample, shifted,
    spec_advance, spec_is_clear, spec_reset_all, spec_switch, spec_wind_down, switch_animation,
    wind_down_animation, FinePosition, IdRange, Keys, Tick,
};
use crate::scene::game::GameState;
use crate::tilemap::tile_animation::{Film, TileAnimation};
use crate::tilemap::{atlas_rect, Tilemap};
use crate::utils::{Rect, Vec2};
use vstd::prelude::*;

verus! {

/// The tile that marks where the actor starts.
pub const SPAWN_ID: u32 = 507;

/// The tile that marks the way out.
pub const EXIT: u32 = 510;

/// The tile of the bonus item.
pub const ITEM_ZELDA: u32 = 478;

/// The tile that blocks the way.
pub const BLOCKING_ID: u32 = 520;

/// The height that a tick of a jump gains before the curve is taken off,
/// in thousandths of a pixel.
pub const JUMP_UP_FACTOR: i64 = 2500;

/// The height that a tick of a fall loses before the curve is added, in
/// thousandths of a pixel.
pub const JUMP_DOWN_FACTOR: i64 = 2000;

/// The factor of the running speed.
pub const MOVE_FACTOR: u8 = 4;

/// The factor of the sliding speed.
pub const BREAK_FACTOR: u8 = 6;

/// How far a jumping or falling actor drifts sideways in a tick, in
/// thousandths of a pixel.
pub const DRIFT: i64 = 200;

/// The ticks for which the actor hangs in the air between rising and falling.
pub const AIR_TICKS: usize = 9;

/// The height of a tile in thousandths of a pixel.
pub const TILE_FINE: i64 = 8000;

/// The number of nanoseconds in a thousandth of a second.
pub const NANOS_PER_MILLI: i128 = 1_000_000;

/// The speeds of the jump, tick by tick, in pixels per second.
pub open spec fn jump_up_curve() -> Seq<int> {
    seq![8int, 15int, 13int, 8int, 6int, 5int, 4int, 3int, 2int, 1int]
}

/// The speeds of the fall, tick by tick, in pixels per second.
pub open spec fn jump_down_curve() -> Seq<int> {
    seq![1int, 1int, 2int, 3int, 5int]
}

/// The speeds of the run, tick by tick, in pixels per second.
pub open spec fn move_speed_curve() -> Seq<int> {
    seq![1int, 1int, 2int, 3int, 5int, 8int, 13int, 21int]
}

/// The speeds of the slide to a stop, tick by tick, in pixels per second.
pub open spec fn break_speed_curve() -> Seq<int> {
    seq![21int, 13int, 8int, 5int, 3int, 2int, 1int, 1int]
}

/// The speed of the jump in its tick `tick`.
pub fn jump_up_speed(tick: usize) -> (speed: u8)
    requires
        tick < 10,
    ensures
        speed == jump_up_curve()[tick as int],
        0 < speed <= 15,
{
    if tick == 0 {
        8
    } else if tick == 1 {
        15
    } else if tick == 2 {
        13
    } else if tick == 3 {
        8
    } else if tick == 4 {
        6
    } else if tick == 5 {
        5
    } else if tick == 6 {
        4
    } else if tick == 7 {
        3
    } else if tick == 8 {
        2
    } else {
        1
    }
}

/// The speed of the fall in its tick `tick`.
pub fn jump_down_speed(tick: usize) -> (speed: u8)
    requires
        tick < 5,
    ensures
        speed == jump_down_curve()[tick as int],
        0 < speed <= 5,
{
    if tick == 0 {
        1
    } else if tick == 1 {
        1
    } else if tick == 2 {
        2
    } else if tick == 3 {
        3
    } else {
        5
    }
}

/// The speed of the run in its tick `tick`.
pub fn move_speed(tick: usize) -> (speed: u8)
    requires
        tick < 8,
    ensures
        speed == move_speed_curve()[tick as int],
        0 < speed <= 21,
{
    if tick == 0 {
        1
    } else if tick == 1 {
        1
    } else if tick == 2 {
        2
    } else if tick == 3 {
        3
    } else if tick == 4 {
        5
    } else if tick == 5 {
        8
    } else if tick == 6 {
        13
    } else {
        21
    }
}

/// The speed of the slide in its tick `tick`.
pub fn break_speed(tick: usize) -> (speed: u8)
    requires
        tick < 8,
    ensures
        speed == break_speed_curve()[tick as int],
        0 < speed <= 21,
{
    if tick == 0 {
        21
    } else if tick == 1 {
        13
    } else if tick == 2 {
        8
    } else if tick == 3 {
        5
    } else if tick == 4 {
        3
    } else if tick == 5 {
        2
    } else {
        1
    }
}

/// The way in thousandths of a pixel that is made in `elapsed` nanoseconds
/// at `factor` times the speed `speed`, rounded down.
pub open spec fn spec_distance(factor: int, speed: int, elapsed: u64) -> int {
    (factor * speed * elapsed) / 1_000_000
}

/// The way that is made in `elapsed` nanoseconds at `factor` times `speed`.
pub fn distance(factor: u8, speed: u8, elapsed: u64) -> (way: i128)
    ensures
        way == spec_distance(factor as int, speed as int, elapsed),
        0 <= way <= 0x1_0000_0000_0000_0000_0000,
{
    assert(0 <= factor * speed <= 255 * 255) by (nonlinear_arith)
        requires
            0 <= factor <= 255,
            0 <= speed <= 255,
    ;
    let scaled: i128 = factor as i128 * speed as i128;
    assert(0 <= scaled * elapsed <= 65025 * 0xffff_ffff_ffff_ffff) by (nonlinear_arith)
        requires
            0 <= scaled <= 65025,
            0 <= elapsed <= 0xffff_ffff_ffff_ffff,
    ;
    (scaled * elapsed as i128) / NANOS_PER_MILLI
}

/// What the actor does on the ground.
#[allow(non_camel_case_types)]
#[derive(Clone, Copy, Debug, PartialEq, Eq, Hash, Structural)]
pub enum State {
    FLOOR,
    SLIDE,
    IDLE,
    RUN,
}

/// Where the actor is in a jump.
#[allow(non_camel_case_types)]
#[derive(Clone, Copy, Debug, PartialEq, Eq, Hash, Structural)]
pub enum JumpState {
    /// On the ground.
    NOT,
    /// Rising.
    JUMP,
    /// Hanging in the air.
    AIR,
    /// Falling.
    DOWN,
}

/// What the actor is seen doing.
#[allow(non_camel_case_types)]
#[derive(Clone, Copy, Debug, PartialEq, Eq, Hash, Structural)]
pub enum AnimationState {
    RUNLEFT,
    RUNRIGHT,
    STANDLEFT,
    STANDRIGHT,
}

/// The side on which the actor has hit a wall in a tick.
#[derive(Clone, Copy, Debug, PartialEq, Eq, Structural)]
pub enum Bump {
    Free,
    Left,
    Right,
}

/// The ways in which a side of the actor's box can be probed.
#[derive(Clone, Copy, Debug, PartialEq, Eq, Structural)]
pub enum Side {
    Left,
    Right,
    Above,
    Below,
}

impl AnimationState {
    /// The place of the state's animation in the set of animations.
    pub open spec fn spec_index(self) -> int {
        match self {
            AnimationState::RUNLEFT => 0,
            AnimationState::RUNRIGHT => 1,
            AnimationState::STANDLEFT => 2,
            AnimationState::STANDRIGHT => 3,
        }
    }

    /// The place of the state's animation in the set of animations.
    pub fn index(self) -> (i: usize)
        ensures
            i == self.spec_index(),
            i < 4,
    {
        match self {
            AnimationState::RUNLEFT => 0,
            AnimationState::RUNRIGHT => 1,
            AnimationState::STANDLEFT => 2,
            AnimationState::STANDRIGHT => 3,
        }
    }

    /// The state in which an actor that ran comes to rest; a standing
    /// actor stays as it is.
    pub open spec fn spec_at_rest(self) -> AnimationState {
        match self {
            AnimationState::RUNLEFT => AnimationState::STANDLEFT,
            AnimationState::RUNRIGHT => AnimationState::STANDRIGHT,
            _ => self,
        }
    }

    /// The state in which an actor that ran comes to rest.
    pub fn at_rest(self) -> (state: AnimationState)
        ensures
            state == self.spec_at_rest(),
    {
        match self {
            AnimationState::RUNLEFT => AnimationState::STANDLEFT,
            AnimationState::RUNRIGHT => AnimationState::STANDRIGHT,
            _ => self,
        }
    }

    /// Whether the actor runs.
    pub open spec fn spec_runs(self) -> bool {
        self == AnimationState::RUNLEFT || self == AnimationState::RUNRIGHT
    }

    /// Whether the actor runs.
    pub fn runs(self) -> (running: bool)
        ensures
            running == self.spec_runs(),
    {
        match self {
            AnimationState::RUNLEFT => true,
            AnimationState::RUNRIGHT => true,
            _ => false,
        }
    }

    /// The tiles of the state's animation on the sheet of the actor.
    pub open spec fn spec_tiles(self) -> Seq<u32> {
        match self {
            AnimationState::RUNLEFT => seq![10u32, 11u32, 12u32, 13u32, 14u32, 15u32, 16u32, 17u32],
            AnimationState::RUNRIGHT => seq![0u32, 1u32, 2u32, 3u32, 4u32, 5u32, 6u32, 7u32],
            AnimationState::STANDLEFT => seq![10u32, 30u32],
            AnimationState::STANDRIGHT => seq![0u32, 20u32],
        }
    }

    /// The time of a frame of the state's animation, in nanoseconds.
    pub open spec fn spec_frame_time(self) -> u64 {
        if self.spec_runs() {
            80_000_000
        } else {
            500_000_000
        }
    }
}

impl Side {
    /// The two points, taken from the top-left corner of the actor's box,
    /// that are probed on this side.
    pub open spec fn spec_samples(self) -> (Vec2, Vec2) {
        match self {
            Side::Left => (Vec2 { x: 0, y: 1 }, Vec2 { x: 0, y: 15 }),
            Side::Right => (Vec2 { x: 8, y: 0 }, Vec2 { x: 8, y: 8 }),
            Side::Above => (Vec2 { x: 0, y: 0 }, Vec2 { x: 8, y: 0 }),
            Side::Below => (Vec2 { x: 0, y: 16 }, Vec2 { x: 8, y: 16 }),
        }
    }

    /// The two points that are probed on this side.
    pub fn samples(self) -> (points: (Vec2, Vec2))
        ensures
            points == self.spec_samples(),
    {
        match self {
            Side::Left => (Vec2::new(0, 1), Vec2::new(0, 15)),
            Side::Right => (Vec2::new(8, 0), Vec2::new(8, 8)),
            Side::Above => (Vec2::new(0, 0), Vec2::new(8, 0)),
            Side::Below => (Vec2::new(0, 16), Vec2::new(8, 16)),
        }
    }
}

/// The tiles that block the way.
pub open spec fn spec_blocking() -> IdRange {
    IdRange { first: BLOCKING_ID, last: BLOCKING_ID }
}

/// The tiles that block the way.
#[verifier::when_used_as_spec(spec_blocking)]
pub fn blocking() -> (range: IdRange)
    ensures
        range == spec_blocking(),
{
    IdRange { first: BLOCKING_ID, last: BLOCKING_ID }
}

/// Whether an actor at `new_position` is free on the side `side`: neither
/// of the two points probed there lies on a blocking tile of the layer
/// "collision".
pub open spec fn spec_is_free(side: Side, new_position: FinePosition, tilemap: Tilemap) -> bool {
    spec_is_clear(
        &tilemap,
        tilemap.layer_id("collision"@),
        new_position.spec_floor(),
        side.spec_samples().0,
        side.spec_samples().1,
        spec_blocking(),
    )
}

/// Whether an actor at `new_position` is free on the side `side`.
pub fn is_free(side: Side, new_position: FinePosition, tilemap: &Tilemap) -> (free: bool)
    requires
        tilemap.wf(),
        new_position.wf(),
    ensures
        free == spec_is_free(side, new_position, *tilemap),
{
    let points = side.samples();
    is_clear(
        tilemap,
        tilemap.get_layer_id("collision"),
        new_position.floor(),
        points.0,
        points.1,
        blocking(),
    )
}

/// Whether the actor may move left to `new_position`.
pub fn can_walk_left(new_position: FinePosition, tilemap: &Tilemap) -> (free: bool)
    requires
        tilemap.wf(),
        new_position.wf(),
    ensures
        free == spec_is_free(Side::Left, new_position, *tilemap),
{
    is_free(Side::Left, new_position, tilemap)
}

/// Whether the actor may move right to `new_position`.
pub fn can_walk_right(new_position: FinePosition, tilemap: &Tilemap) -> (free: bool)
    requires
        tilemap.wf(),
        new_position.wf(),
    ensures
        free == spec_is_free(Side::Right, new_position, *tilemap),
{
    is_free(Side::Right, new_position, tilemap)
}

/// Whether the actor at `new_position` has room above to rise.
pub fn can_jump_up(new_position: FinePosition, tilemap: &Tilemap) -> (free: bool)
    requires
        tilemap.wf(),
        new_position.wf(),
    ensures
        free == spec_is_free(Side::Above, new_position, *tilemap),
{
    is_free(Side::Above, new_position, tilemap)
}

/// Whether the actor at `new_position` has nothing below to stand on.
pub fn can_walk_down(new_position: FinePosition, tilemap: &Tilemap) -> (free: bool)
    requires
        tilemap.wf(),
        new_position.wf(),
    ensures
        free == spec_is_free(Side::Below, new_position, *tilemap),
{
    is_free(Side::Below, new_position, tilemap)
}

/// What a tick asks the caller to do.
#[derive(Clone, Copy, Debug, PartialEq, Eq, Structural)]
pub struct SideReport {
    /// The place to go to, if the actor has reached the exit.
    pub game_state: Option<GameState>,
    /// Whether the starting delay begins anew.
    pub restart_timer: bool,
    /// Whether the sound of a jump is due.
    pub jump_sound: bool,
    /// Whether the sound of a pick-up is due.
    pub pickup_sound: bool,
}

/// The actor in a side level.
pub struct PlayerSide {
    ingredients: u8,
    bonus: u8,
    moving_timer: usize,
    break_timer: usize,
    air_timer: usize,
    jump_up_timer: usize,
    jump_down_timer: usize,
    direction: i8,
    position: FinePosition,
    bump: Bump,
    need_reset: bool,
    jump_timer: u32,
    state: State,
    jump_state: JumpState,
    animation_state: AnimationState,
    animations: Vec<TileAnimation>,
    last_item_id: Option<u32>,
}

/// What the actor is, apart from how it is stored.
pub struct PlayerSideView {
    /// The ingredients picked up, at most 255.
    pub ingredients: u8,
    /// The bonus items picked up, at most 255.
    pub bonus: u8,
    /// The ticks for which the actor has run, as far as the curve goes.
    pub moving_timer: int,
    /// The ticks for which the actor has slid.
    pub break_timer: int,
    /// The ticks for which the actor has hung in the air.
    pub air_timer: int,
    /// The ticks for which the actor has risen.
    pub jump_up_timer: int,
    /// The ticks for which the actor has fallen, as far as the curve goes.
    pub jump_down_timer: int,
    /// The way the actor drifts and slides: -1 left, 1 right, 0 neither.
    pub direction: int,
    pub position: FinePosition,
    pub bump: Bump,
    /// Whether the next tick puts the actor back into its first state.
    pub need_reset: bool,
    pub jump_timer: u32,
    pub state: State,
    pub jump_state: JumpState,
    pub animation_state: AnimationState,
    /// The animations, in the order of the states.
    pub films: Seq<Film>,
    /// The item that was picked up last.
    pub last_item_id: Option<u32>,
}

/// The actor in the middle of a tick: where it will be at the end of the
/// tick, as far as that is settled, beside the actor itself.
pub struct Draft {
    pub actor: PlayerSideView,
    pub target: FinePosition,
    pub jump_sound: bool,
}

/// The actor `actor` in the middle of a tick.
pub open spec fn draft_of(actor: PlayerSideView, target: FinePosition, jump_sound: bool) -> Draft {
    Draft { actor, target, jump_sound }
}

/// What lies under the actor's centre and is picked up or reached.
#[derive(Clone, Copy, Debug, PartialEq, Eq, Structural)]
pub enum Find {
    /// Nothing of interest.
    Nothing,
    /// The way out.
    Exit,
    /// An item with this tile, to be taken off the map.
    Item(u32),
}

/// The count `count` and one more, as far as a `u8` goes.
pub open spec fn spec_one_more(count: u8) -> u8 {
    if count < 255 {
        (count + 1) as u8
    } else {
        count
    }
}

/// The count `count` and one more, as far as a `u8` goes.
pub fn one_more(count: u8) -> (more: u8)
    ensures
        more == spec_one_more(count),
{
    if count < 255 {
        count + 1
    } else {
        count
    }
}

impl PlayerSideView {
    /// What holds of the actor at all times: its position is one, its
    /// counters of ticks stay within their curves, its direction is -1, 0
    /// or 1, and it has a well-formed animation for each of its four states.
    pub open spec fn wf(self) -> bool {
        &&& self.position.wf()
        &&& 0 <= self.moving_timer < 8
        &&& 0 <= self.break_timer <= 8
        &&& 0 <= self.air_timer <= AIR_TICKS + 1
        &&& 0 <= self.jump_up_timer <= 9
        &&& 0 <= self.jump_down_timer <= 4
        &&& -1 <= self.direction <= 1
        &&& self.films.len() == 4
        &&& films_wf(self.films)
    }

    /// The pixel nearest to the actor's position.
    pub open spec fn position_rounded(self) -> Vec2 {
        self.position.spec_round()
    }

    /// The actor put back into its first state, if that is due: idle and
    /// facing right, with no run or slide under way, nothing picked up last,
    /// and every animation on its first frame.
    pub open spec fn reset_if_due(self) -> PlayerSideView {
        if self.need_reset {
            PlayerSideView {
                state: State::IDLE,
                jump_timer: 0,
                moving_timer: 0,
                break_timer: 8,
                need_reset: false,
                last_item_id: None,
                animation_state: AnimationState::STANDRIGHT,
                films: spec_reset_all(self.films),
                ..self
            }
        } else {
            self
        }
    }

    /// The actor with the position `x` on the horizontal axis.
    pub open spec fn at_x(self, x: int) -> FinePosition {
        FinePosition { x: clamp_fine(x) as i64, ..self.position }
    }

    /// The actor running in the direction `direction` (-1 left, 1 right)
    /// for a tick of `elapsed` nanoseconds. If the way is free the actor
    /// runs and gains speed; else it is turned round and set up to slide
    /// back briefly.
    #[verifier::opaque]
    pub open spec fn run(draft: Draft, tilemap: Tilemap, direction: int, elapsed: u64) -> Draft {
        let actor = draft.actor;
        let way = spec_distance(
            MOVE_FACTOR as int,
            move_speed_curve()[actor.moving_timer],
            elapsed,
        );
        let goal = actor.at_x(actor.position.x + direction * way);
        let side = if direction < 0 {
            Side::Left
        } else {
            Side::Right
        };
        let running = if direction < 0 {
            AnimationState::RUNLEFT
        } else {
            AnimationState::RUNRIGHT
        };
        if spec_is_free(side, goal, tilemap) {
            Draft {
                actor: PlayerSideView {
                    films: spec_switch(
                        actor.films,
                        actor.animation_state.spec_index(),
                        running.spec_index(),
                    ),
                    animation_state: running,
                    state: State::RUN,
                    direction,
                    moving_timer: if actor.moving_timer < 7 {
                        actor.moving_timer + 1
                    } else {
                        actor.moving_timer
                    },
                    ..actor
                },
                target: FinePosition { x: goal.x, ..draft.target },
                ..draft
            }
        } else {
            Draft {
                actor: PlayerSideView {
                    direction: -direction,
                    break_timer: 5,
                    bump: if direction < 0 {
                        Bump::Left
                    } else {
                        Bump::Right
                    },
                    ..actor
                },
                ..draft
            }
        }
    }

    /// The actor with no key to run for a tick of `elapsed` nanoseconds.
    /// On the ground, an actor that ran begins to slide, a sliding actor
    /// slides on in its direction as far as the way is free, and comes to
    /// rest when the slide is over. The animation of a run runs out.
    #[verifier::opaque]
    pub open spec fn coast(draft: Draft, tilemap: Tilemap, elapsed: u64) -> Draft {
        let actor = PlayerSideView { moving_timer: 0, ..draft.actor };
        let grounded = if actor.jump_state == JumpState::NOT {
            let sliding = if actor.state == State::RUN {
                PlayerSideView { break_timer: 0, state: State::SLIDE, ..actor }
            } else {
                actor
            };
            if sliding.break_timer < 7 {
                let way = spec_distance(
                    BREAK_FACTOR as int,
                    break_speed_curve()[sliding.break_timer],
                    elapsed,
                );
                let goal = if sliding.direction > 0 {
                    sliding.at_x(sliding.position.x + way)
                } else {
                    sliding.at_x(sliding.position.x - way)
                };
                let free = if sliding.direction > 0 {
                    spec_is_free(Side::Right, goal, tilemap)
                } else {
                    spec_is_free(Side::Left, goal, tilemap)
                };
                Draft {
                    actor: PlayerSideView { break_timer: sliding.break_timer + 1, ..sliding },
                    target: if free {
                        FinePosition { x: goal.x, ..draft.target }
                    } else {
                        draft.target
                    },
                    ..draft
                }
            } else {
                Draft {
                    actor: PlayerSideView { state: State::IDLE, direction: 0, ..sliding },
                    ..draft
                }
            }
        } else {
            Draft { actor, ..draft }
        };
        let resting = grounded.actor;
        if resting.animation_state.spec_runs() {
            let current = resting.animation_state.spec_index();
            Draft {
                actor: PlayerSideView {
                    films: spec_wind_down(resting.films, current),
                    animation_state: if resting.films[current].with_repeating(false).finish() {
                        resting.animation_state.spec_at_rest()
                    } else {
                        resting.animation_state
                    },
                    ..resting
                },
                ..grounded
            }
        } else {
            grounded
        }
    }

    /// The horizontal part of a tick: the actor runs left if the left key
    /// is held, else right if the right key is held, else it coasts.
    pub open spec fn horizontal(draft: Draft, tilemap: Tilemap, keys: Keys, elapsed: u64) -> Draft {
        if keys.left {
            PlayerSideView::run(draft, tilemap, -1, elapsed)
        } else if keys.right {
            PlayerSideView::run(draft, tilemap, 1, elapsed)
        } else {
            PlayerSideView::coast(draft, tilemap, elapsed)
        }
    }

    /// The target `target` drifted sideways in the direction `direction`.
    pub open spec fn drifted(target: FinePosition, direction: int) -> FinePosition {
        FinePosition { x: clamp_fine(target.x + direction * DRIFT) as i64, ..target }
    }

    /// The rising part of a tick. With the jump key held, an actor on the
    /// ground or rising rises on while its jump lasts and there is room
    /// above, and hangs in the air else. Without the key a rising actor
    /// hangs in the air at once.
    #[verifier::opaque]
    pub open spec fn rise(draft: Draft, tilemap: Tilemap, keys: Keys, elapsed: u64) -> Draft {
        let actor = draft.actor;
        let pushed = if keys.jump && (actor.jump_state == JumpState::JUMP || actor.jump_state
            == JumpState::NOT) {
            if actor.jump_up_timer < 9 && spec_is_free(Side::Above, actor.position, tilemap) {
                let timer = actor.jump_up_timer + 1;
                let gain = spec_distance(1, jump_up_curve()[timer], elapsed);
                Draft {
                    actor: PlayerSideView {
                        jump_state: JumpState::JUMP,
                        jump_up_timer: timer,
                        ..actor
                    },
                    target: PlayerSideView::drifted(
                        FinePosition {
                            y: clamp_fine(actor.position.y - JUMP_UP_FACTOR + gain) as i64,
                            ..draft.target
                        },
                        actor.direction,
                    ),
                    jump_sound: actor.jump_state == JumpState::NOT,
                }
            } else {
                Draft { actor: PlayerSideView { jump_state: JumpState::AIR, ..actor }, ..draft }
            }
        } else {
            draft
        };
        if !keys.jump && pushed.actor.jump_state == JumpState::JUMP {
            Draft {
                actor: PlayerSideView {
                    jump_state: JumpState::AIR,
                    jump_up_timer: 0,
                    ..pushed.actor
                },
                ..pushed
            }
        } else {
            pushed
        }
    }

    /// The hanging part of a tick: an actor in the air hangs there for a
    /// fixed number of ticks and falls after that.
    pub open spec fn hang(self) -> PlayerSideView {
        if self.jump_state == JumpState::AIR {
            if self.air_timer > AIR_TICKS {
                PlayerSideView { air_timer: 0, jump_state: JumpState::DOWN, ..self }
            } else {
                PlayerSideView { air_timer: self.air_timer + 1, ..self }
            }
        } else {
            self
        }
    }

    /// The falling part of a tick: an actor that falls or is on the ground
    /// falls on while there is nothing below it, and lands else, with all
    /// counters of the jump back at zero.
    #[verifier::opaque]
    pub open spec fn fall(draft: Draft, tilemap: Tilemap, elapsed: u64) -> Draft {
        let actor = draft.actor;
        if actor.jump_state == JumpState::DOWN || actor.jump_state == JumpState::NOT {
            if spec_is_free(Side::Below, actor.position, tilemap) {
                let timer = if actor.jump_down_timer < 4 {
                    actor.jump_down_timer + 1
                } else {
                    actor.jump_down_timer
                };
                let loss = spec_distance(1, jump_down_curve()[timer], elapsed);
                Draft {
                    actor: PlayerSideView {
                        jump_down_timer: timer,
                        jump_state: JumpState::DOWN,
                        ..actor
                    },
                    target: PlayerSideView::drifted(
                        FinePosition {
                            y: clamp_fine(actor.position.y + JUMP_DOWN_FACTOR + loss) as i64,
                            ..draft.target
                        },
                        actor.direction,
                    ),
                    ..draft
                }
            } else {
                Draft {
                    actor: PlayerSideView {
                        jump_down_timer: 0,
                        jump_up_timer: 0,
                        jump_state: JumpState::NOT,
                        state: State::FLOOR,
                        ..actor
                    },
                    ..draft
                }
            }
        } else {
            draft
        }
    }

    /// The end of the movement of a tick. An actor that has a new place to
    /// be goes there. One that has none stands still: it loses its direction
    /// and, if it hangs between two rows of tiles, is set on the upper one.
    #[verifier::opaque]
    pub open spec fn settle(actor: PlayerSideView, target: FinePosition) -> PlayerSideView {
        if actor.position == target {
            PlayerSideView {
                position: FinePosition {
                    x: target.x,
                    y: if actor.position.y > 0 {
                        (actor.position.y - actor.position.y % TILE_FINE) as i64
                    } else {
                        actor.position.y
                    },
                },
                direction: 0,
                ..actor
            }
        } else {
            PlayerSideView { position: target, ..actor }
        }
    }

    /// What the tile `seen` under the actor's centre is to the actor: the
    /// way out, an item that it has not just picked up, or nothing. The
    /// tile of the start is nothing.
    pub open spec fn find(self, seen: Option<u32>) -> Find {
        match seen {
            Some(id) => if id == SPAWN_ID {
                Find::Nothing
            } else if id == EXIT {
                Find::Exit
            } else if self.last_item_id != seen {
                Find::Item(id)
            } else {
                Find::Nothing
            },
            None => Find::Nothing,
        }
    }

    /// The actor after it has dealt with the tile `seen` under its centre:
    /// at the exit it is due to be put back into its first state; an item is
    /// counted, the bonus item as a bonus and any other as an ingredient,
    /// and recorded as picked up last.
    pub open spec fn pick(self, seen: Option<u32>) -> PlayerSideView {
        match self.find(seen) {
            Find::Nothing => self,
            Find::Exit => PlayerSideView { need_reset: true, ..self },
            Find::Item(id) => if id == ITEM_ZELDA {
                PlayerSideView { last_item_id: seen, bonus: spec_one_more(self.bonus), ..self }
            } else {
                PlayerSideView {
                    last_item_id: seen,
                    ingredients: spec_one_more(self.ingredients),
                    ..self
                }
            },
        }
    }

    /// The tile under the centre of the actor on the map `tilemap`.
    pub open spec fn seen(self, tilemap: Tilemap) -> Option<u32> {
        tilemap.id_at_point(
            tilemap.layer_id("logic"@),
            self.position_rounded().x + 4,
            self.position_rounded().y + 4,
        )
    }

    /// Whether the actor moves in the tick `tick`: its starting delay is
    /// over, and has not just begun anew.
    pub open spec fn moves(self, tick: Tick) -> bool {
        tick.ready && !self.need_reset
    }

    /// What the actor finds in the tick `tick` on the map `tilemap`.
    pub open spec fn found(self, tilemap: Tilemap, tick: Tick) -> Find {
        if self.moves(tick) {
            self.find(self.seen(tilemap))
        } else {
            Find::Nothing
        }
    }

    /// The actor after a tick on the map `tilemap`, and what the tick asks
    /// the caller to do.
    ///
    /// An actor that is due for it is put back into its first state, and
    /// its starting delay begins anew. The current animation runs on. Once
    /// the delay is over the actor moves: first sideways, then up, then
    /// down, and then it deals with what was under its centre at the start
    /// of the tick.
    pub open spec fn step(self, tilemap: Tilemap, tick: Tick) -> (PlayerSideView, SideReport) {
        let fresh = self.reset_if_due();
        let animated = PlayerSideView {
            films: spec_advance(fresh.films, fresh.animation_state.spec_index(), tick.elapsed),
            bump: Bump::Free,
            ..fresh
        };
        if self.moves(tick) {
            let start = Draft { actor: animated, target: animated.position, jump_sound: false };
            let sideways = PlayerSideView::horizontal(start, tilemap, tick.keys, tick.elapsed);
            let risen = PlayerSideView::rise(sideways, tilemap, tick.keys, tick.elapsed);
            let hung = Draft { actor: risen.actor.hang(), ..risen };
            let fallen = PlayerSideView::fall(hung, tilemap, tick.elapsed);
            let settled = PlayerSideView::settle(fallen.actor, fallen.target);
            let find = self.found(tilemap, tick);
            (
                settled.pick(self.seen(tilemap)),
                SideReport {
                    game_state: if find == Find::Exit {
                        Some(GameState::MAP)
                    } else {
                        None
                    },
                    restart_timer: false,
                    jump_sound: fallen.jump_sound,
                    pickup_sound: find matches Find::Item(_),
                },
            )
        } else {
            (
                animated,
                SideReport {
                    game_state: None,
                    restart_timer: self.need_reset,
                    jump_sound: false,
                    pickup_sound: false,
                },
            )
        }
    }
}

impl View for PlayerSide {
    type V = PlayerSideView;

    closed spec fn view(&self) -> PlayerSideView {
        PlayerSideView {
            ingredients: self.ingredients,
            bonus: self.bonus,
            moving_timer: self.moving_timer as int,
            break_timer: self.break_timer as int,
            air_timer: self.air_timer as int,
            jump_up_timer: self.jump_up_timer as int,
            jump_down_timer: self.jump_down_timer as int,
            direction: self.direction as int,
            position: self.position,
            bump: self.bump,
            need_reset: self.need_reset,
            jump_timer: self.jump_timer,
            state: self.state,
            jump_state: self.jump_state,
            animation_state: self.animation_state,
            films: films(self.animations@),
            last_item_id: self.last_item_id,
        }
    }
}

/// The sheet that the actor's animations are cut from.
pub open spec fn spec_sheet() -> Rect {
    Rect { x: 0, y: 0, w: 160, h: 128 }
}

/// The source rectangle of the tile `id` of the actor's sheet.
pub open spec fn sheet_rect(id: u32) -> Rect {
    atlas_rect(spec_sheet(), 16, 16, 10, id as int)
}

/// Whether `film` is the fresh, repeating animation of `state`.
pub open spec fn is_animation_of(film: Film, state: AnimationState) -> bool {
    &&& film.wf()
    &&& film.frames == state.spec_tiles().map_values(|id: u32| sheet_rect(id))
    &&& film.durations == Seq::new(state.spec_tiles().len(), |i: int| state.spec_frame_time())
    &&& film.frame == 0
    &&& film.clock == 0
    &&& film.repeating
}

/// The state whose animation has the place `i` in the set.
pub open spec fn state_at(i: int) -> AnimationState {
    if i == 0 {
        AnimationState::RUNLEFT
    } else if i == 1 {
        AnimationState::RUNRIGHT
    } else if i == 2 {
        AnimationState::STANDLEFT
    } else {
        AnimationState::STANDRIGHT
    }
}

/// The state whose animation has the place `i` in the set.
pub fn state_of(i: usize) -> (state: AnimationState)
    ensures
        state == state_at(i as int),
{
    if i == 0 {
        AnimationState::RUNLEFT
    } else if i == 1 {
        AnimationState::RUNRIGHT
    } else if i == 2 {
        AnimationState::STANDLEFT
    } else {
        AnimationState::STANDRIGHT
    }
}

/// The tiles of the animation of `state` on the sheet of the actor.
pub fn tiles(state: AnimationState) -> (ids: Vec<u32>)
    ensures
        ids@ == state.spec_tiles(),
{
    let ids = match state {
        AnimationState::RUNLEFT => vec![10u32, 11u32, 12u32, 13u32, 14u32, 15u32, 16u32, 17u32],
        AnimationState::RUNRIGHT => vec![0u32, 1u32, 2u32, 3u32, 4u32, 5u32, 6u32, 7u32],
        AnimationState::STANDLEFT => vec![10u32, 30u32],
        AnimationState::STANDRIGHT => vec![0u32, 20u32],
    };
    assert(ids@ =~= state.spec_tiles());
    ids
}

/// The time of a frame of the animation of `state`, in nanoseconds.
pub fn frame_time(state: AnimationState) -> (time: u64)
    ensures
        time == state.spec_frame_time(),
        time > 0,
{
    if state.runs() {
        80_000_000
    } else {
        500_000_000
    }
}

/// The fresh animations of the actor, one for each state, in the order of
/// the states.
pub fn get_animations() -> (animations: Vec<TileAnimation>)
    ensures
        animations@.len() == 4,
        films_wf(films(animations@)),
        forall|i: int| 0 <= i < 4 ==> is_animation_of(#[trigger] films(animations@)[i], state_at(i)),
{
    let sheet = Rect::new(0, 0, 160, 128);
    assert(crate::tilemap::atlas_columns(sheet, 16) == 10);
    assert(crate::tilemap::atlas_rows(sheet, 16) == 8);
    let player_tilemap = Tilemap::new(sheet, 16, 16, 10, 8);
    let mut animations: Vec<TileAnimation> = Vec::with_capacity(4);
    let mut i: usize = 0;
    while i < 4
        invariant
            i <= 4,
            animations@.len() == i,
            sheet == spec_sheet(),
            player_tilemap.catalog() == crate::tilemap::catalog_of(sheet, 16, 16),
            crate::tilemap::atlas_columns(sheet, 16) == 10,
            crate::tilemap::atlas_rows(sheet, 16) == 8,
            forall|k: int| 0 <= k < i ==> is_animation_of(#[trigger] animations@[k]@, state_at(k)),
        decreases 4 - i,
    {
        let state = state_of(i);
        let ids = tiles(state);
        let time = frame_time(state);
        let durations: Vec<u64> = vec![time];
        assert(durations@ =~= seq![time]);
        assert(forall|k: int| 0 <= k < ids@.len() ==> (#[trigger] ids@[k]) < 80);
        assert(crate::tilemap::tile_animation::spread(durations@, ids@.len())[0] > 0);
        let animation = TileAnimation::new(&player_tilemap, ids.as_slice(), durations);
        proof {
            assert(animation@.frames =~= state.spec_tiles().map_values(|id: u32| sheet_rect(id)));
            assert(animation@.durations =~= Seq::new(
                state.spec_tiles().len(),
                |k: int| state.spec_frame_time(),
            ));
        }
        animations.push(animation);
        i += 1;
    }
    proof {
        assert forall|k: int| 0 <= k < 4 implies is_animation_of(
            #[trigger] films(animations@)[k],
            state_at(k),
        ) by {
            assert(is_animation_of(animations@[k]@, state_at(k)));
        }
    }
    animations
}

impl PlayerSide {
    /// The actor before its first tick: at the origin, on the floor, facing
    /// right, with nothing picked up, and due to be put into its first state.
    pub fn new() -> (player: Self)
        ensures
            player@.wf(),
            player@.ingredients == 0,
            player@.bonus == 0,
            player@.moving_timer == 0,
            player@.break_timer == 0,
            player@.air_timer == 0,
            player@.jump_up_timer == 0,
            player@.jump_down_timer == 0,
            player@.direction == 0,
            player@.position == (FinePosition { x: 0, y: 0 }),
            player@.bump == Bump::Free,
            player@.need_reset,
            player@.jump_timer == 0,
            player@.state == State::FLOOR,
            player@.jump_state == JumpState::NOT,
            player@.animation_state == AnimationState::STANDRIGHT,
            player@.last_item_id.is_none(),
            forall|i: int| 0 <= i < 4 ==> is_animation_of(#[trigger] player@.films[i], state_at(i)),
    {
        PlayerSide {
            ingredients: 0,
            bonus: 0,
            moving_timer: 0,
            break_timer: 0,
            air_timer: 0,
            jump_up_timer: 0,
            jump_down_timer: 0,
            direction: 0,
            position: FinePosition { x: 0, y: 0 },
            bump: Bump::Free,
            need_reset: true,
            jump_timer: 0,
            state: State::FLOOR,
            jump_state: JumpState::NOT,
            animation_state: AnimationState::STANDRIGHT,
            animations: get_animations(),
            last_item_id: None,
        }
    }

    /// Puts the actor back into its first state, if that is due.
    fn reset_if_due(&mut self)
        requires
            old(self)@.wf(),
        ensures
            final(self)@.wf(),
            final(self)@ == old(self)@.reset_if_due(),
    {
        if self.need_reset {
            self.state = State::IDLE;
            self.jump_timer = 0;
            self.moving_timer = 0;
            self.break_timer = 8;
            self.need_reset = false;
            self.last_item_id = None;
            self.animation_state = AnimationState::STANDRIGHT;
            reset_animations(&mut self.animations);
        }
    }

    /// Runs in the direction `direction` for a tick.
    fn run(&mut self, target: &mut FinePosition, tilemap: &Tilemap, direction: i8, elapsed: u64)
        requires
            old(self)@.wf(),
            old(target).wf(),
            tilemap.wf(),
            direction == -1 || direction == 1,
        ensures
            final(self)@.wf(),
            final(target).wf(),
            forall|jump_sound: bool|
                #![trigger draft_of(final(self)@, *final(target), jump_sound)]
                draft_of(final(self)@, *final(target), jump_sound)
                    == PlayerSideView::run(
                    Draft { actor: old(self)@, target: *old(target), jump_sound },
                    *tilemap,
                    direction as int,
                    elapsed,
                ),
            final(self)@.last_item_id == old(self)@.last_item_id,
    {
        reveal(PlayerSideView::run);
        let way = distance(MOVE_FACTOR, move_speed(self.moving_timer), elapsed);
        let signed: i128 = if direction < 0 {
            -way
        } else {
            way
        };
        assert(signed == direction * way) by (nonlinear_arith)
            requires
                (direction == -1 && signed == -way) || (direction == 1 && signed == way),
        ;
        let goal = FinePosition { x: shifted(self.position.x, signed), y: self.position.y };
        let side = if direction < 0 {
            Side::Left
        } else {
            Side::Right
        };
        if is_free(side, goal, tilemap) {
            let running = if direction < 0 {
                AnimationState::RUNLEFT
            } else {
                AnimationState::RUNRIGHT
            };
            switch_animation(&mut self.animations, self.animation_state.index(), running.index());
            self.animation_state = running;
            self.state = State::RUN;
            self.direction = direction;
            target.x = goal.x;
            if self.moving_timer < 7 {
                self.moving_timer += 1;
            }
        } else {
            self.direction = -direction;
            self.break_timer = 5;
            self.bump = if direction < 0 {
                Bump::Left
            } else {
                Bump::Right
            };
        }
    }

    /// Coasts for a tick in which no key asks the actor to run.
    fn coast(&mut self, target: &mut FinePosition, tilemap: &Tilemap, elapsed: u64)
        requires
            old(self)@.wf(),
            old(target).wf(),
            tilemap.wf(),
        ensures
            final(self)@.wf(),
            final(target).wf(),
            forall|jump_sound: bool|
                #![trigger draft_of(final(self)@, *final(target), jump_sound)]
                draft_of(final(self)@, *final(target), jump_sound)
                    == PlayerSideView::coast(
                    Draft { actor: old(self)@, target: *old(target), jump_sound },
                    *tilemap,
                    elapsed,
                ),
            final(self)@.last_item_id == old(self)@.last_item_id,
    {
        reveal(PlayerSideView::coast);
        self.moving_timer = 0;
        if self.jump_state == JumpState::NOT {
            if self.state == State::RUN {
                self.break_timer = 0;
                self.state = State::SLIDE;
            }
            if self.break_timer < 7 {
                let way = distance(BREAK_FACTOR, break_speed(self.break_timer), elapsed);
                if self.direction > 0 {
                    let goal = FinePosition {
                        x: shifted(self.position.x, way),
                        y: self.position.y,
                    };
                    if is_free(Side::Right, goal, tilemap) {
                        target.x = goal.x;
                    }
                } else {
                    let goal = FinePosition {
                        x: shifted(self.position.x, -way),
                        y: self.position.y,
                    };
                    if is_free(Side::Left, goal, tilemap) {
                        target.x = goal.x;
                    }
                }
                self.break_timer += 1;
            } else {
                self.state = State::IDLE;
                self.direction = 0;
            }
        }
        if self.animation_state.runs() {
            if wind_down_animation(&mut self.animations, self.animation_state.index()) {
                self.animation_state = self.animation_state.at_rest();
            }
        }
    }

    /// The rising part of a tick; says whether the sound of a jump is due.
    fn rise(&mut self, target: &mut FinePosition, tilemap: &Tilemap, keys: Keys, elapsed: u64) -> (jump_sound:
        bool)
        requires
            old(self)@.wf(),
            old(target).wf(),
            tilemap.wf(),
        ensures
            final(self)@.wf(),
            final(target).wf(),
            (Draft { actor: final(self)@, target: *final(target), jump_sound })
                == PlayerSideView::rise(
                Draft { actor: old(self)@, target: *old(target), jump_sound: false },
                *tilemap,
                keys,
                elapsed,
            ),
            final(self)@.last_item_id == old(self)@.last_item_id,
    {
        reveal(PlayerSideView::rise);
        let mut jump_sound = false;
        if keys.jump && (self.jump_state == JumpState::JUMP || self.jump_state == JumpState::NOT) {
            if self.jump_up_timer < 9 && is_free(Side::Above, self.position, tilemap) {
                if self.jump_state == JumpState::NOT {
                    jump_sound = true;
                    self.jump_state = JumpState::JUMP;
                }
                self.jump_up_timer += 1;
                let gain = distance(1, jump_up_speed(self.jump_up_timer), elapsed);
                target.y = shifted(self.position.y, gain - JUMP_UP_FACTOR as i128);
                target.x = shifted(target.x, self.direction as i128 * DRIFT as i128);
            } else {
                self.jump_state = JumpState::AIR;
            }
        }
        if !keys.jump && self.jump_state == JumpState::JUMP {
            self.jump_state = JumpState::AIR;
            self.jump_up_timer = 0;
        }
        jump_sound
    }

    /// The hanging part of a tick.
    fn hang(&mut self)
        requires
            old(self)@.wf(),
        ensures
            final(self)@.wf(),
            final(self)@ == old(self)@.hang(),
            final(self)@.last_item_id == old(self)@.last_item_id,
    {
        if self.jump_state == JumpState::AIR {
            if self.air_timer > AIR_TICKS {
                self.air_timer = 0;
                self.jump_state = JumpState::DOWN;
            } else {
                self.air_timer += 1;
            }
        }
    }

    /// The falling part of a tick.
    fn fall(&mut self, target: &mut FinePosition, tilemap: &Tilemap, elapsed: u64)
        requires
            old(self)@.wf(),
            old(target).wf(),
            tilemap.wf(),
        ensures
            final(self)@.wf(),
            final(target).wf(),
            forall|jump_sound: bool|
                #![trigger draft_of(final(self)@, *final(target), jump_sound)]
                draft_of(final(self)@, *final(target), jump_sound)
                    == PlayerSideView::fall(
                    Draft { actor: old(self)@, target: *old(target), jump_sound },
                    *tilemap,
                    elapsed,
                ),
            final(self)@.last_item_id == old(self)@.last_item_id,
    {
        reveal(PlayerSideView::fall);
        if self.jump_state == JumpState::DOWN || self.jump_state == JumpState::NOT {
            if is_free(Side::Below, self.position, tilemap) {
                if self.jump_down_timer < 4 {
                    self.jump_down_timer += 1;
                }
                let loss = distance(1, jump_down_speed(self.jump_down_timer), elapsed);
                target.y = shifted(self.position.y, loss + JUMP_DOWN_FACTOR as i128);
                target.x = shifted(target.x, self.direction as i128 * DRIFT as i128);
                self.jump_state = JumpState::DOWN;
            } else {
                self.jump_down_timer = 0;
                self.jump_up_timer = 0;
                self.jump_state = JumpState::NOT;
                self.state = State::FLOOR;
            }
        }
    }

    /// Ends the movement of a tick with `target` as the place to be.
    fn settle(&mut self, target: FinePosition)
        requires
            old(self)@.wf(),
            target.wf(),
        ensures
            final(self)@.wf(),
            final(self)@ == PlayerSideView::settle(old(self)@, target),
            final(self)@.last_item_id == old(self)@.last_item_id,
    {
        reveal(PlayerSideView::settle);
        if self.position.x == target.x && self.position.y == target.y {
            if self.position.y > 0 {
                self.position.y = self.position.y - self.position.y % TILE_FINE;
            }
            self.direction = 0;
            self.position.x = target.x;
        } else {
            self.position = target;
        }
    }

    /// Deals with the tile `seen` under the actor's centre, and says what
    /// it was to the actor.
    fn pick(&mut self, seen: Option<u32>) -> (find: Find)
        requires
            old(self)@.wf(),
        ensures
            final(self)@.wf(),
            final(self)@ == old(self)@.pick(seen),
            find == old(self)@.find(seen),
    {
        match seen {
            Some(id) => {
                if id == SPAWN_ID {
                    Find::Nothing
                } else if id == EXIT {
                    self.need_reset = true;
                    Find::Exit
                } else {
                    let same = match self.last_item_id {
                        Some(last) => last == id,
                        None => false,
                    };
                    if same {
                        Find::Nothing
                    } else {
                        self.last_item_id = seen;
                        if id == ITEM_ZELDA {
                            self.bonus = one_more(self.bonus);
                        } else {
                            self.ingredients = one_more(self.ingredients);
                        }
                        Find::Item(id)
                    }
                }
            },
            None => Find::Nothing,
        }
    }

    /// Lets a tick pass on the map `tilemap`, and says what the tick asks
    /// the caller to do. An item that the actor picks up is taken off the
    /// layer "logic" of the map, wherever it lies there.
    pub fn update(&mut self, tilemap: &mut Tilemap, tick: Tick) -> (report: SideReport)
        requires
            old(self)@.wf(),
            old(tilemap).wf(),
        ensures
            final(self)@.wf(),
            final(tilemap).wf(),
            (final(self)@, report) == old(self)@.step(*old(tilemap), tick),
            match old(self)@.found(*old(tilemap), tick) {
                Find::Item(id) => final(tilemap).is_replacement_of(
                    *old(tilemap),
                    old(tilemap).layer_id("logic"@),
                    id,
                    None,
                ),
                _ => *final(tilemap) == *old(tilemap),
            },
    {
        let was_due = self.need_reset;
        self.reset_if_due();
        advance_animation(&mut self.animations, self.animation_state.index(), tick.elapsed);
        let center = self.position.round();
        let logic = tilemap.get_layer_id("logic");
        let seen = sample(tilemap, logic, center.x as i64 + 4, center.y as i64 + 4);
        self.bump = Bump::Free;
        if tick.ready && !was_due {
            let mut target = self.position;
            let ghost start = draft_of(self@, target, false);
            if tick.keys.left {
                self.run(&mut target, tilemap, -1, tick.elapsed);
            } else if tick.keys.right {
                self.run(&mut target, tilemap, 1, tick.elapsed);
            } else {
                self.coast(&mut target, tilemap, tick.elapsed);
            }
            let ghost sideways = draft_of(self@, target, false);
            assert(sideways == PlayerSideView::horizontal(
                start,
                *old(tilemap),
                tick.keys,
                tick.elapsed,
            ));
            let jump_sound = self.rise(&mut target, tilemap, tick.keys, tick.elapsed);
            let ghost risen = draft_of(self@, target, jump_sound);
            assert(risen == PlayerSideView::rise(sideways, *old(tilemap), tick.keys, tick.elapsed));
            self.hang();
            let ghost hung = draft_of(self@, target, jump_sound);
            assert(hung == (Draft { actor: risen.actor.hang(), ..risen }));
            self.fall(&mut target, tilemap, tick.elapsed);
            let ghost fallen = draft_of(self@, target, jump_sound);
            assert(fallen == PlayerSideView::fall(hung, *old(tilemap), tick.elapsed));
            self.settle(target);
            assert(self@ == PlayerSideView::settle(fallen.actor, fallen.target));
            assert(self@.last_item_id == old(self)@.last_item_id);
            let find = self.pick(seen);
            let (game_state, pickup_sound) = match find {
                Find::Nothing => (None, false),
                Find::Exit => (Some(GameState::MAP), false),
                Find::Item(id) => {
                    tilemap.replace_all_tileid(logic, id, None);
                    (None, true)
                },
            };
            SideReport { game_state, restart_timer: false, jump_sound, pickup_sound }
        } else {
            SideReport {
                game_state: None,
                restart_timer: was_due,
                jump_sound: false,
                pickup_sound: false,
            }
        }
    }

    /// The pixel nearest to the actor's position.
    pub fn position(&self) -> (pixel: Vec2)
        requires
            self@.wf(),
        ensures
            pixel == self@.position_rounded(),
    {
        self.position.round()
    }

    /// The actor's position.
    pub fn fine_position(&self) -> (position: FinePosition)
        ensures
            position == self@.position,
    {
        self.position
    }

    /// Puts the actor on `position`.
    pub fn set_position(&mut self, position: FinePosition)
        requires
            position.wf(),
        ensures
            final(self)@ == (PlayerSideView { position, ..old(self)@ }),
    {
        self.position = position;
    }

    /// The ingredients picked up.
    pub fn ingredients(&self) -> (count: u8)
        ensures
            count == self@.ingredients,
    {
        self.ingredients
    }

    /// The bonus items picked up.
    pub fn bonus(&self) -> (count: u8)
        ensures
            count == self@.bonus,
    {
        self.bonus
    }

    /// What the actor does on the ground.
    pub fn state(&self) -> (state: State)
        ensures
            state == self@.state,
    {
        self.state
    }

    /// Where the actor is in a jump.
    pub fn jump_state(&self) -> (state: JumpState)
        ensures
            state == self@.jump_state,
    {
        self.jump_state
    }

    /// What the actor is seen doing.
    pub fn animation_state(&self) -> (state: AnimationState)
        ensures
            state == self@.animation_state,
    {
        self.animation_state
    }

    /// The side on which the actor has hit a wall in the last tick.
    pub fn bump(&self) -> (bump: Bump)
        ensures
            bump == self@.bump,
    {
        self.bump
    }

    /// The source rectangle of the frame that shows the actor now.
    pub fn source(&self) -> (source: Option<Rect>)
        requires
            self@.wf(),
        ensures
            source == Some(self@.films[self@.animation_state.spec_index()].source()),
    {
        let i = self.animation_state.index();
        assert(films(self.animations@)[i as int].wf());
        self.animations[i].source()
    }
}

/// A run against a wall is refused: the place where the actor will be
/// stays as it was, the actor is turned round, and has bumped into the wall.
pub proof fn lemma_blocked_run(draft: Draft, tilemap: Tilemap, direction: int, elapsed: u64)
    requires
        direction == -1 || direction == 1,
        !spec_is_free(
            if direction < 0 {
                Side::Left
            } else {
                Side::Right
            },
            draft.actor.at_x(
                draft.actor.position.x + direction * spec_distance(
                    MOVE_FACTOR as int,
                    move_speed_curve()[draft.actor.moving_timer],
                    elapsed,
                ),
            ),
            tilemap,
        ),
    ensures
        PlayerSideView::run(draft, tilemap, direction, elapsed).target == draft.target,
        PlayerSideView::run(draft, tilemap, direction, elapsed).actor.position
            == draft.actor.position,
        PlayerSideView::run(draft, tilemap, direction, elapsed).actor.direction == -direction,
        PlayerSideView::run(draft, tilemap, direction, elapsed).actor.bump != Bump::Free,
{
    reveal(PlayerSideView::run);
}

/// No part of the sideways movement changes where the actor will be on
/// the vertical axis.
pub proof fn lemma_sideways_keeps_height(draft: Draft, tilemap: Tilemap, keys: Keys, elapsed: u64)
    ensures
        PlayerSideView::horizontal(draft, tilemap, keys, elapsed).target.y == draft.target.y,
{
    reveal(PlayerSideView::run);
    reveal(PlayerSideView::coast);
}

} // verus!
