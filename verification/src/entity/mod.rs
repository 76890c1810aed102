//! What the actors on a map share: positions finer than a pixel, the keys
//! of a tick, the probes that tell whether a step is free, the detector
//! that fires a trigger once, and the set of animations of an actor.

use crate::tilemap::tile_animation::{Film, TileAnimation};
use crate::tilemap::Tilemap;
use crate::utils::Vec2;
use vstd::prelude::*;

pub mod item;
pub mod player;
pub mod player_map;
pub mod player_side;

verus! {

/// Number of position units in a pixel.
pub const FINE_PER_PIXEL: i64 = 1000;

/// The least coordinate of a position: two thousand million pixels left
/// of or above the origin.
pub const FINE_MIN: i64 = -2_000_000_000_000;

/// The greatest coordinate of a position: two thousand million pixels
/// right of or below the origin.
pub const FINE_MAX: i64 = 2_000_000_000_000;

/// The position of an actor, in thousandths of a pixel.
#[derive(Clone, Copy, Debug, PartialEq, Eq, Structural)]
pub struct FinePosition {
    pub x: i64,
    pub y: i64,
}

/// The value `v`, or the nearest coordinate of a position if `v` is none.
pub open spec fn clamp_fine(v: int) -> int {
    if v < FINE_MIN {
        FINE_MIN as int
    } else if v > FINE_MAX {
        FINE_MAX as int
    } else {
        v
    }
}

/// The pixel nearest to the coordinate `v`; a coordinate half way between
/// two pixels goes to the one farther from zero.
pub open spec fn round_fine(v: int) -> int {
    if v >= 0 {
        (v + 500) / 1000
    } else {
        -((500 - v) / 1000)
    }
}

/// The pixel that the coordinate `v` lies in.
pub open spec fn floor_fine(v: int) -> int {
    v / 1000
}

/// The coordinate `v` moved by `by`, kept within the coordinates of a position.
pub fn shifted(v: i64, by: i128) -> (moved: i64)
    ensures
        moved == clamp_fine(v + by),
{
    let room_above: i128 = FINE_MAX as i128 - v as i128;
    let room_below: i128 = FINE_MIN as i128 - v as i128;
    if by > room_above {
        FINE_MAX
    } else if by < room_below {
        FINE_MIN
    } else {
        (v as i128 + by) as i64
    }
}

/// The pixel nearest to the coordinate `v`.
pub fn rounded(v: i64) -> (pixel: i32)
    requires
        FINE_MIN <= v <= FINE_MAX,
    ensures
        pixel == round_fine(v as int),
{
    if v >= 0 {
        ((v + 500) / 1000) as i32
    } else {
        (-((500 - v) / 1000)) as i32
    }
}

/// The pixel that the coordinate `v` lies in.
pub fn floored(v: i64) -> (pixel: i32)
    requires
        FINE_MIN <= v <= FINE_MAX,
    ensures
        pixel == floor_fine(v as int),
{
    if v >= 0 {
        (v / 1000) as i32
    } else {
        let below: i64 = (999 - v) / 1000;
        (-below) as i32
    }
}

impl FinePosition {
    /// Whether both coordinates are coordinates of a position.
    pub open spec fn wf(self) -> bool {
        &&& FINE_MIN <= self.x <= FINE_MAX
        &&& FINE_MIN <= self.y <= FINE_MAX
    }

    /// The position of the top-left corner of the pixel `pixel`, or the
    /// nearest position if that corner is none.
    pub open spec fn spec_from_pixels(pixel: Vec2) -> FinePosition {
        FinePosition {
            x: clamp_fine(pixel.x * 1000) as i64,
            y: clamp_fine(pixel.y * 1000) as i64,
        }
    }

    /// The position of the top-left corner of the pixel `pixel`, or the
    /// nearest position if that corner is none.
    pub fn from_pixels(pixel: Vec2) -> (position: FinePosition)
        ensures
            position == FinePosition::spec_from_pixels(pixel),
            position.wf(),
    {
        FinePosition {
            x: shifted(0, pixel.x as i128 * 1000),
            y: shifted(0, pixel.y as i128 * 1000),
        }
    }

    /// The pixel nearest to the position.
    pub open spec fn spec_round(self) -> Vec2 {
        Vec2 { x: round_fine(self.x as int) as i32, y: round_fine(self.y as int) as i32 }
    }

    /// The pixel nearest to the position.
    pub fn round(&self) -> (pixel: Vec2)
        requires
            self.wf(),
        ensures
            pixel == self.spec_round(),
            pixel.x == round_fine(self.x as int),
            pixel.y == round_fine(self.y as int),
            -2_000_000_000 <= pixel.x <= 2_000_000_000,
            -2_000_000_000 <= pixel.y <= 2_000_000_000,
    {
        Vec2::new(rounded(self.x), rounded(self.y))
    }

    /// The pixel that the position lies in.
    pub open spec fn spec_floor(self) -> Vec2 {
        Vec2 { x: floor_fine(self.x as int) as i32, y: floor_fine(self.y as int) as i32 }
    }

    /// The pixel that the position lies in.
    pub fn floor(&self) -> (pixel: Vec2)
        requires
            self.wf(),
        ensures
            pixel == self.spec_floor(),
            pixel.x == floor_fine(self.x as int),
            pixel.y == floor_fine(self.y as int),
            -2_000_000_000 <= pixel.x <= 2_000_000_000,
            -2_000_000_000 <= pixel.y <= 2_000_000_000,
    {
        Vec2::new(floored(self.x), floored(self.y))
    }
}

/// The keys that are held down in a tick.
#[derive(Clone, Copy, Debug, PartialEq, Eq, Structural)]
pub struct Keys {
    pub up: bool,
    pub down: bool,
    pub left: bool,
    pub right: bool,
    pub jump: bool,
}

/// What a tick brings: the keys held, the time in nanoseconds since the
/// tick before, and whether the actor's starting delay is over.
#[derive(Clone, Copy, Debug, PartialEq, Eq, Structural)]
pub struct Tick {
    pub keys: Keys,
    pub elapsed: u64,
    pub ready: bool,
}

/// The tile identifiers from `first` to `last` that block an actor.
#[derive(Clone, Copy, Debug, PartialEq, Eq, Structural)]
pub struct IdRange {
    pub first: u32,
    pub last: u32,
}

impl IdRange {
    /// Whether `id` is a tile of the range.
    pub open spec fn holds(self, id: Option<u32>) -> bool {
        id matches Some(i) && self.first <= i <= self.last
    }

    /// Whether `id` is a tile of the range.
    pub fn contains(&self, id: Option<u32>) -> (inside: bool)
        ensures
            inside == self.holds(id),
    {
        match id {
            Some(i) => self.first <= i && i <= self.last,
            None => false,
        }
    }
}

/// The identifier of the tile under the pixel `(x, y)` of `layer`.
pub fn sample(tilemap: &Tilemap, layer: usize, x: i64, y: i64) -> (id: Option<u32>)
    requires
        tilemap.wf(),
    ensures
        id == tilemap.id_at_point(layer as int, x as int, y as int),
{
    if 0 <= x && x <= 0x7fff_ffff && 0 <= y && y <= 0x7fff_ffff {
        tilemap.get_id_at_position(layer, Vec2::new(x as i32, y as i32))
    } else {
        proof {
            if x > 0x7fff_ffff {
                lemma_beyond_map(x as int, tilemap.width() as int, tilemap.tile_width());
            }
            if y > 0x7fff_ffff {
                lemma_beyond_map(y as int, tilemap.height() as int, tilemap.tile_height());
            }
        }
        None
    }
}

/// A pixel beyond the extent of a map lies in no cell of it.
pub proof fn lemma_beyond_map(v: int, cells: int, size: int)
    requires
        size > 0,
        cells >= 0,
        v >= cells * size,
    ensures
        v / size >= cells,
{
    vstd::arithmetic::div_mod::lemma_fundamental_div_mod(v, size);
    vstd::arithmetic::div_mod::lemma_mod_bound(v, size);
    if v / size < cells {
        assert(size * (v / size) + size <= cells * size) by (nonlinear_arith)
            requires
                v / size + 1 <= cells,
                size > 0,
        ;
    }
}

/// Whether an actor whose box has its top-left corner on the pixel `base`
/// may stand there: neither of the two sample points, `first` and
/// `second`, taken from that corner, lies on a blocking tile of `layer`.
pub open spec fn spec_is_clear(
    tilemap: &Tilemap,
    layer: int,
    base: Vec2,
    first: Vec2,
    second: Vec2,
    blocking: IdRange,
) -> bool {
    &&& !blocking.holds(tilemap.id_at_point(layer, base.x + first.x, base.y + first.y))
    &&& !blocking.holds(tilemap.id_at_point(layer, base.x + second.x, base.y + second.y))
}

/// Whether neither sample point lies on a blocking tile.
pub fn is_clear(
    tilemap: &Tilemap,
    layer: usize,
    base: Vec2,
    first: Vec2,
    second: Vec2,
    blocking: IdRange,
) -> (clear: bool)
    requires
        tilemap.wf(),
    ensures
        clear == spec_is_clear(tilemap, layer as int, base, first, second, blocking),
{
    let id = sample(tilemap, layer, base.x as i64 + first.x as i64, base.y as i64 + first.y as i64);
    let id2 = sample(
        tilemap,
        layer,
        base.x as i64 + second.x as i64,
        base.y as i64 + second.y as i64,
    );
    !blocking.contains(id) && !blocking.contains(id2)
}

/// What each of the animations of an actor is.
pub open spec fn films(animations: Seq<TileAnimation>) -> Seq<Film> {
    animations.map_values(|animation: TileAnimation| animation@)
}

/// Whether every animation of the set is well formed.
pub open spec fn films_wf(films: Seq<Film>) -> bool {
    forall|i: int| 0 <= i < films.len() ==> (#[trigger] films[i]).wf()
}

/// The set after the animation `current` has run for `elapsed` nanoseconds.
pub open spec fn spec_advance(films: Seq<Film>, current: int, elapsed: u64) -> Seq<Film> {
    films.update(current, films[current].advance_by(elapsed))
}

/// The set after the actor has changed from the state of the animation
/// `from` to that of the animation `to`: the animation that is left goes
/// back to its first frame, and the one that is entered repeats. Nothing
/// changes where the state stays the same.
pub open spec fn spec_switch(films: Seq<Film>, from: int, to: int) -> Seq<Film> {
    if from == to {
        films
    } else {
        films.update(from, films[from].reset()).update(to, films[to].with_repeating(true))
    }
}

/// The set after the animation `current` has been told to run out: it
/// repeats no longer, and goes back to its first frame once it has come to
/// an end.
pub open spec fn spec_wind_down(films: Seq<Film>, current: int) -> Seq<Film> {
    let last_round = films[current].with_repeating(false);
    if last_round.finish() {
        films.update(current, last_round.reset())
    } else {
        films.update(current, last_round)
    }
}

/// The set with every animation on its first frame.
pub open spec fn spec_reset_all(films: Seq<Film>) -> Seq<Film> {
    films.map_values(|film: Film| film.reset())
}

/// Lets the animation `current` run for `elapsed` nanoseconds.
pub fn advance_animation(animations: &mut Vec<TileAnimation>, current: usize, elapsed: u64)
    requires
        current < old(animations)@.len(),
        films_wf(films(old(animations)@)),
    ensures
        final(animations)@.len() == old(animations)@.len(),
        films_wf(films(final(animations)@)),
        films(final(animations)@) == spec_advance(films(old(animations)@), current as int, elapsed),
{
    assert(films(animations@)[current as int].wf());
    animations[current].advance_by(elapsed);
    proof {
        let before = films(old(animations)@);
        let after = films(animations@);
        assert(after =~= spec_advance(before, current as int, elapsed));
        assert forall|i: int| 0 <= i < after.len() implies (#[trigger] after[i]).wf() by {
            if i != current {
                assert(before[i].wf());
            }
        }
    }
}

/// Changes from the animation `from` to the animation `to`.
pub fn switch_animation(animations: &mut Vec<TileAnimation>, from: usize, to: usize)
    requires
        from < old(animations)@.len(),
        to < old(animations)@.len(),
        films_wf(films(old(animations)@)),
    ensures
        final(animations)@.len() == old(animations)@.len(),
        films_wf(films(final(animations)@)),
        films(final(animations)@) == spec_switch(films(old(animations)@), from as int, to as int),
{
    if from != to {
        assert(films(animations@)[from as int].wf());
        assert(films(animations@)[to as int].wf());
        animations[from].reset();
        animations[to].set_repeating(true);
        proof {
            let before = films(old(animations)@);
            let after = films(animations@);
            assert(after =~= spec_switch(before, from as int, to as int));
            assert forall|i: int| 0 <= i < after.len() implies (#[trigger] after[i]).wf() by {
                if i != from && i != to {
                    assert(before[i].wf());
                }
            }
        }
    }
}

/// Tells the animation `current` to run out, and says whether it has come
/// to an end.
pub fn wind_down_animation(animations: &mut Vec<TileAnimation>, current: usize) -> (finished: bool)
    requires
        current < old(animations)@.len(),
        films_wf(films(old(animations)@)),
    ensures
        final(animations)@.len() == old(animations)@.len(),
        films_wf(films(final(animations)@)),
        films(final(animations)@) == spec_wind_down(films(old(animations)@), current as int),
        finished == films(old(animations)@)[current as int].with_repeating(false).finish(),
{
    assert(films(animations@)[current as int].wf());
    animations[current].set_repeating(false);
    let finished = animations[current].finish();
    if finished {
        animations[current].reset();
    }
    proof {
        let before = films(old(animations)@);
        let after = films(animations@);
        assert(after =~= spec_wind_down(before, current as int));
        assert forall|i: int| 0 <= i < after.len() implies (#[trigger] after[i]).wf() by {
            if i != current {
                assert(before[i].wf());
            }
        }
    }
    finished
}

/// Puts every animation on its first frame.
pub fn reset_animations(animations: &mut Vec<TileAnimation>)
    requires
        films_wf(films(old(animations)@)),
    ensures
        final(animations)@.len() == old(animations)@.len(),
        films_wf(films(final(animations)@)),
        films(final(animations)@) == spec_reset_all(films(old(animations)@)),
{
    let mut i: usize = 0;
    while i < animations.len()
        invariant
            i <= animations@.len(),
            animations@.len() == old(animations)@.len(),
            films_wf(films(old(animations)@)),
            forall|k: int| 0 <= k < i ==> (#[trigger] animations@[k])@ == old(animations)@[k]@.reset(),
            forall|k: int| i <= k < animations@.len() ==> #[trigger] animations@[k] == old(animations)@[k],
        decreases animations@.len() - i,
    {
        assert(films(old(animations)@)[i as int].wf());
        animations[i].reset();
        i += 1;
    }
    proof {
        let before = films(old(animations)@);
        let after = films(animations@);
        assert(after =~= spec_reset_all(before));
        assert forall|i: int| 0 <= i < after.len() implies (#[trigger] after[i]).wf() by {
            assert(before[i].wf());
        }
    }
}

/// What an edge detector makes of what it sees: a trigger fires when it is
/// seen and was not the last thing recorded, and is then recorded; seeing
/// nothing clears the record; anything else leaves the record as it is.
/// The result is whether the trigger fires, and the new record.
pub open spec fn spec_detect(last_seen: Option<u32>, seen: Option<u32>, is_trigger: bool) -> (
    bool,
    Option<u32>,
) {
    match seen {
        Some(id) => if is_trigger && last_seen != seen {
            (true, seen)
        } else {
            (false, last_seen)
        },
        None => (false, None),
    }
}

/// Whether the trigger that is seen fires, and what is recorded then.
pub fn detect(last_seen: Option<u32>, seen: Option<u32>, is_trigger: bool) -> (outcome: (
    bool,
    Option<u32>,
))
    ensures
        outcome == spec_detect(last_seen, seen, is_trigger),
{
    match seen {
        Some(id) => {
            let same = match last_seen {
                Some(last) => last == id,
                None => false,
            };
            if is_trigger && !same {
                (true, seen)
            } else {
                (false, last_seen)
            }
        },
        None => (false, None),
    }
}

/// A trigger that stays in sight fires once: what fired a tick ago does
/// not fire again while it is seen.
pub proof fn lemma_fires_once(last_seen: Option<u32>, seen: Option<u32>)
    requires
        seen.is_some(),
    ensures
        ({
            let first = spec_detect(last_seen, seen, true);
            let second = spec_detect(first.1, seen, true);
            let third = spec_detect(second.1, seen, true);
            &&& first.0 == (last_seen != seen)
            &&& !second.0
            &&& !third.0
        }),
{
}

/// A trigger fires again after it has been out of sight: once nothing was
/// seen, whatever trigger comes next fires.
pub proof fn lemma_fires_again(last_seen: Option<u32>, seen: Option<u32>)
    requires
        seen.is_some(),
    ensures
        ({
            let away = spec_detect(last_seen, None, true);
            let back = spec_detect(away.1, seen, true);
            let stay = spec_detect(back.1, seen, true);
            &&& !away.0
            &&& back.0
            &&& !stay.0
        }),
{
}

} // verus!
