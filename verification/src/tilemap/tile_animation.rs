//! A timed sequence of tiles of a catalog.

use crate::tilemap::Tilemap;
use crate::utils::Rect;
use vstd::prelude::*;

verus! {

/// A sequence of source rectangles, each shown for its own time, with a
/// cursor on the frame that is shown now and the time that this frame has
/// been shown. All times are in nanoseconds.
#[derive(Debug)]
pub struct TileAnimation {
    frames: Vec<Rect>,
    tile_durations: Vec<u64>,
    current_frame: usize,
    timer: u64,
    repeating: bool,
}

/// Whether one of the frames takes time. A sequence none of whose frames
/// takes time has no frame to stay on.
pub open spec fn takes_time(durations: Seq<u64>) -> bool {
    exists|i: int| 0 <= i < durations.len() && #[trigger] durations[i] > 0
}

/// A frame that takes time.
pub open spec fn lasting_frame(durations: Seq<u64>) -> int {
    choose|i: int| 0 <= i < durations.len() && #[trigger] durations[i] > 0
}

/// The number of frames from the frame `frame` on to the frame
/// `lasting_frame`, going round after the last frame.
pub open spec fn frames_to_lasting(durations: Seq<u64>, frame: int) -> int {
    let lasting = lasting_frame(durations);
    if frame <= lasting {
        lasting - frame
    } else {
        lasting - frame + durations.len()
    }
}

/// The frame and the timer that a repeating sequence with the frame times
/// `durations` reaches from the frame `frame` with `timer` nanoseconds on
/// its clock: as long as the clock exceeds the time of the frame at hand,
/// that time is taken off the clock and the next frame follows, the first
/// one after the last.
pub open spec fn run(durations: Seq<u64>, frame: int, timer: int) -> (int, int)
    decreases timer, frames_to_lasting(durations, frame),
    when 0 <= frame < durations.len() && takes_time(durations) && 0 <= timer
    via run_decreases
{
    if timer > durations[frame] {
        run(durations, (frame + 1) % (durations.len() as int), timer - durations[frame])
    } else {
        (frame, timer)
    }
}

#[via_fn]
proof fn run_decreases(durations: Seq<u64>, frame: int, timer: int) {
    if timer > durations[frame] {
        lemma_next_frame(durations, frame);
    }
}

/// The frame and the timer that a sequence that does not repeat reaches
/// from the frame `frame` with `timer` nanoseconds on its clock: as long as
/// the clock exceeds the time of the frame at hand and that frame is not
/// the last, that time is taken off the clock and the next frame follows.
/// On the last frame the clock stops at the time of that frame.
pub open spec fn run_once(durations: Seq<u64>, frame: int, timer: int) -> (int, int)
    decreases durations.len() - frame,
{
    if 0 <= frame < durations.len() - 1 && timer > durations[frame] {
        run_once(durations, frame + 1, timer - durations[frame])
    } else {
        (frame, vstd::math::min(timer, durations[frame] as int))
    }
}

/// The time that the frames from the frame `frame` on take together.
pub open spec fn time_left(durations: Seq<u64>, frame: int) -> int
    decreases durations.len() - frame,
{
    if 0 <= frame < durations.len() {
        durations[frame] + time_left(durations, frame + 1)
    } else {
        0
    }
}

/// The frame after `frame` is a frame, and from a frame that takes no
/// time it is one frame less to a frame that takes time.
pub proof fn lemma_next_frame(durations: Seq<u64>, frame: int)
    requires
        0 <= frame < durations.len(),
        takes_time(durations),
    ensures
        0 <= (frame + 1) % (durations.len() as int) < durations.len(),
        (frame + 1) % (durations.len() as int) == if frame + 1 == durations.len() {
            0
        } else {
            frame + 1
        },
        0 <= frames_to_lasting(durations, frame),
        durations[frame] == 0 ==> frames_to_lasting(
            durations,
            (frame + 1) % (durations.len() as int),
        ) < frames_to_lasting(durations, frame),
{
    let count = durations.len() as int;
    if frame + 1 == count {
        vstd::arithmetic::div_mod::lemma_mod_self_0(count);
    } else {
        vstd::arithmetic::div_mod::lemma_small_mod((frame + 1) as nat, count as nat);
    }
    let lasting = lasting_frame(durations);
    assert(0 <= lasting < count && durations[lasting] > 0);
}

/// The frame times of a sequence of `count` frames made with the times
/// `given`: the times given, as far as there are frames, and the first of
/// them for every frame that was given none.
pub open spec fn spread(given: Seq<u64>, count: nat) -> Seq<u64> {
    Seq::new(
        count,
        |i: int|
            if i < given.len() {
                given[i]
            } else {
                given[0]
            },
    )
}

/// What a sequence is, apart from how it is stored.
pub struct Film {
    /// The source rectangles, in the order in which they are shown.
    pub frames: Seq<Rect>,
    /// The time for which each frame is shown.
    pub durations: Seq<u64>,
    /// The index of the frame that is shown now.
    pub frame: int,
    /// The time for which the current frame has been shown.
    pub clock: int,
    /// Whether the sequence starts over after its last frame.
    pub repeating: bool,
}

impl Film {
    /// What holds of every sequence: it has a frame, as many frame times
    /// as frames, a frame that takes time, a cursor on one of its frames,
    /// and a clock that fits a `u64`.
    pub open spec fn wf(self) -> bool {
        &&& self.frames.len() > 0
        &&& self.durations.len() == self.frames.len()
        &&& takes_time(self.durations)
        &&& 0 <= self.frame < self.frames.len()
        &&& 0 <= self.clock <= u64::MAX
    }

    /// Whether the cursor is on a frame before the last.
    pub open spec fn frames_remaining(self) -> bool {
        self.frame < self.frames.len() - 1
    }

    /// The sequence after `duration` nanoseconds have passed.
    ///
    /// A sequence that repeats moves on by as many frames as have run out,
    /// going round after the last. A sequence that does not repeat moves on
    /// in the same way up to its last frame and never leaves that frame:
    /// there its clock stops at the time of the frame.
    pub open spec fn advance_by(self, duration: u64) -> Film {
        let (frame, clock) = if self.repeating {
            run(self.durations, self.frame, self.clock + duration)
        } else {
            run_once(self.durations, self.frame, self.clock + duration)
        };
        Film { frame, clock, ..self }
    }

    /// The sequence on its first frame with its clock at zero.
    pub open spec fn restart(self) -> Film {
        Film { frame: 0, clock: 0, ..self }
    }

    /// The sequence on its first frame with its clock as it is.
    pub open spec fn reset(self) -> Film {
        Film { frame: 0, ..self }
    }

    /// The sequence, repeating or not.
    pub open spec fn with_repeating(self, repeating: bool) -> Film {
        Film { repeating, ..self }
    }

    /// Whether a sequence that does not repeat is on one of the frames
    /// that end it: the last, the first, or the one in the middle. A
    /// repeating sequence never is.
    pub open spec fn finish(self) -> bool {
        !self.repeating && (self.frame == self.frames.len() - 1 || self.frame == 0 || self.frame
            == (self.frames.len() - 1) / 2)
    }

    /// The source rectangle of the current frame.
    pub open spec fn source(self) -> Rect {
        self.frames[self.frame]
    }

    /// Whether the sequence is a fresh one of the tiles `tile_ids` of
    /// `tilemap`, made with the frame times `given`.
    pub open spec fn is_fresh(self, tilemap: &Tilemap, tile_ids: Seq<u32>, given: Seq<u64>) -> bool {
        &&& self.frames == tile_ids.map_values(|id: u32| tilemap.catalog()[id])
        &&& self.durations == spread(given, tile_ids.len())
        &&& self.frame == 0
        &&& self.clock == 0
    }
}

/// Where a repeating sequence gets to in a given time is one of its
/// frames, with no more than that frame's time on the clock.
pub proof fn lemma_run_lands(durations: Seq<u64>, frame: int, timer: int)
    requires
        0 <= frame < durations.len(),
        takes_time(durations),
        0 <= timer,
    ensures
        0 <= run(durations, frame, timer).0 < durations.len(),
        0 <= run(durations, frame, timer).1 <= durations[run(durations, frame, timer).0],
        run(durations, frame, timer).1 <= timer,
    decreases timer, frames_to_lasting(durations, frame),
{
    if timer > durations[frame] {
        lemma_next_frame(durations, frame);
        lemma_run_lands(durations, (frame + 1) % (durations.len() as int), timer - durations[frame]);
    }
}

/// Where a sequence that does not repeat gets to in a given time is its
/// frame or a later one, with no more than that frame's time on the clock.
pub proof fn lemma_run_once_lands(durations: Seq<u64>, frame: int, timer: int)
    requires
        0 <= frame < durations.len(),
        0 <= timer,
    ensures
        frame <= run_once(durations, frame, timer).0 < durations.len(),
        0 <= run_once(durations, frame, timer).1 <= durations[run_once(durations, frame, timer).0],
        run_once(durations, frame, timer).1 <= timer,
    decreases durations.len() - frame,
{
    if frame < durations.len() - 1 && timer > durations[frame] {
        lemma_run_once_lands(durations, frame + 1, timer - durations[frame]);
    }
}

impl View for TileAnimation {
    type V = Film;

    closed spec fn view(&self) -> Film {
        Film {
            frames: self.frames@,
            durations: self.tile_durations@,
            frame: self.current_frame as int,
            clock: self.timer as int,
            repeating: self.repeating,
        }
    }
}

impl TileAnimation {
    /// Whether a sequence can be made of these tiles and frame times: there
    /// is a tile, the catalog knows each tile, there is a frame time, and
    /// one of the frames takes time.
    pub open spec fn can_make(tilemap: &Tilemap, tile_ids: Seq<u32>, given: Seq<u64>) -> bool {
        &&& tile_ids.len() > 0
        &&& forall|i: int|
            0 <= i < tile_ids.len() ==> tilemap.catalog().contains_key(#[trigger] tile_ids[i])
        &&& given.len() > 0
        &&& takes_time(spread(given, tile_ids.len()))
    }

    /// A repeating sequence of the tiles `tile_ids` of `tilemap`.
    ///
    /// A frame that `tile_durations` gives no time gets the first time in
    /// the list; times beyond the last frame are dropped.
    pub fn new(tilemap: &Tilemap, tile_ids: &[u32], tile_durations: Vec<u64>) -> (animation: Self)
        requires
            TileAnimation::can_make(tilemap, tile_ids@, tile_durations@),
        ensures
            animation@.wf(),
            animation@.is_fresh(tilemap, tile_ids@, tile_durations@),
            animation@.repeating,
    {
        TileAnimation {
            frames: tilemap.get_frames_from_ids(tile_ids),
            tile_durations: spread_durations(tile_durations, tile_ids.len()),
            current_frame: 0,
            timer: 0,
            repeating: true,
        }
    }

    /// A sequence of the tiles `tile_ids` of `tilemap` that stops on its
    /// last frame.
    ///
    /// A frame that `tile_durations` gives no time gets the first time in
    /// the list; times beyond the last frame are dropped.
    pub fn once(tilemap: &Tilemap, tile_ids: &[u32], tile_durations: Vec<u64>) -> (animation: Self)
        requires
            TileAnimation::can_make(tilemap, tile_ids@, tile_durations@),
        ensures
            animation@.wf(),
            animation@.is_fresh(tilemap, tile_ids@, tile_durations@),
            !animation@.repeating,
    {
        TileAnimation {
            frames: tilemap.get_frames_from_ids(tile_ids),
            tile_durations: spread_durations(tile_durations, tile_ids.len()),
            current_frame: 0,
            timer: 0,
            repeating: false,
        }
    }

    /// Lets `duration` nanoseconds pass.
    pub fn advance_by(&mut self, duration: u64)
        requires
            old(self)@.wf(),
        ensures
            final(self)@.wf(),
            final(self)@ == old(self)@.advance_by(duration),
    {
        let mut timer: u128 = self.timer as u128 + duration as u128;
        let count = self.frames.len();
        if self.repeating {
            while timer > self.tile_durations[self.current_frame] as u128
                invariant
                    old(self)@.wf(),
                    self@.wf(),
                    count == self@.frames.len(),
                    self@.frames == old(self)@.frames,
                    self@.durations == old(self)@.durations,
                    self@.repeating == old(self)@.repeating,
                    run(self@.durations, self@.frame, timer as int) == run(
                        old(self)@.durations,
                        old(self)@.frame,
                        old(self)@.clock + duration,
                    ),
                decreases timer, frames_to_lasting(self@.durations, self@.frame),
            {
                proof {
                    lemma_next_frame(self@.durations, self@.frame);
                }
                timer = timer - self.tile_durations[self.current_frame] as u128;
                self.current_frame = (self.current_frame + 1) % count;
            }
            self.timer = timer as u64;
        } else {
            while self.current_frame < count - 1 && timer
                > self.tile_durations[self.current_frame] as u128
                invariant
                    old(self)@.wf(),
                    self@.wf(),
                    count == self@.frames.len(),
                    self@.frames == old(self)@.frames,
                    self@.durations == old(self)@.durations,
                    self@.repeating == old(self)@.repeating,
                    run_once(self@.durations, self@.frame, timer as int) == run_once(
                        old(self)@.durations,
                        old(self)@.frame,
                        old(self)@.clock + duration,
                    ),
                decreases count - self.current_frame,
            {
                timer = timer - self.tile_durations[self.current_frame] as u128;
                self.current_frame = self.current_frame + 1;
            }
            let limit = self.tile_durations[self.current_frame];
            if timer > limit as u128 {
                self.timer = limit;
            } else {
                self.timer = timer as u64;
            }
        }
    }

    /// Returns to the first frame and sets the clock to zero.
    pub fn restart(&mut self)
        requires
            old(self)@.wf(),
        ensures
            final(self)@.wf(),
            final(self)@ == old(self)@.restart(),
    {
        self.current_frame = 0;
        self.timer = 0;
    }

    /// Whether the sequence has come to an end.
    pub fn finish(&self) -> (finished: bool)
        requires
            self@.wf(),
        ensures
            finished == self@.finish(),
    {
        if !self.repeating {
            return self.current_frame == self.frames.len() - 1 || self.current_frame == 0
                || self.current_frame == (self.frames.len() - 1) / 2;
        }
        false
    }

    /// Returns to the first frame and leaves the clock as it is.
    pub fn reset(&mut self)
        requires
            old(self)@.wf(),
        ensures
            final(self)@.wf(),
            final(self)@ == old(self)@.reset(),
    {
        self.current_frame = 0;
    }

    /// The source rectangle of the current frame.
    pub fn source(&self) -> (source: Option<Rect>)
        requires
            self@.wf(),
        ensures
            source == Some(self@.source()),
    {
        Some(self.frames[self.current_frame])
    }

    /// Whether the sequence starts over after its last frame.
    pub fn is_repeating(&self) -> (repeating: bool)
        ensures
            repeating == self@.repeating,
    {
        self.repeating
    }

    /// Makes the sequence start over after its last frame, or stop there.
    pub fn set_repeating(&mut self, repeating: bool)
        ensures
            final(self)@ == old(self)@.with_repeating(repeating),
            old(self)@.wf() ==> final(self)@.wf(),
    {
        self.repeating = repeating;
    }

    /// The index of the current frame.
    pub fn current_frame(&self) -> (frame: usize)
        ensures
            frame == self@.frame,
    {
        self.current_frame
    }

    /// The time in nanoseconds for which the current frame has been shown.
    pub fn timer(&self) -> (timer: u64)
        ensures
            timer == self@.clock,
    {
        self.timer
    }
}

/// The frame times of a sequence of `count` frames made with the times `given`.
fn spread_durations(given: Vec<u64>, count: usize) -> (durations: Vec<u64>)
    requires
        given@.len() > 0,
    ensures
        durations@ == spread(given@, count as nat),
{
    let mut durations: Vec<u64> = Vec::with_capacity(count);
    let mut i: usize = 0;
    while i < count
        invariant
            given@.len() > 0,
            i <= count,
            durations@ == spread(given@, i as nat),
        decreases count - i,
    {
        let duration = if i < given.len() {
            given[i]
        } else {
            given[0]
        };
        durations.push(duration);
        assert(durations@ =~= spread(given@, (i + 1) as nat));
        i += 1;
    }
    durations
}

/// A repeating sequence whose frames all take the time `each` moves on by
/// `frames` frames in `frames` times that time and a rest, and the rest is
/// on the clock of the frame it comes to.
pub proof fn lemma_run_skips(durations: Seq<u64>, frame: int, each: u64, frames: nat, rest: int)
    requires
        0 <= frame < durations.len(),
        each > 0,
        forall|i: int| 0 <= i < durations.len() ==> #[trigger] durations[i] == each,
        0 < rest <= each,
    ensures
        run(durations, frame, frames * each + rest) == ((frame + frames) % (durations.len() as int), rest),
    decreases frames,
{
    let count = durations.len() as int;
    assert(durations[0] == each);
    assert(frames * each >= 0) by (nonlinear_arith)
        requires
            frames >= 0,
            each > 0,
    ;
    if frames == 0 {
        assert(0 * each + rest == rest);
        vstd::arithmetic::div_mod::lemma_small_mod(frame as nat, count as nat);
    } else {
        assert(frames * each + rest == (frames - 1) * each + rest + each) by (nonlinear_arith);
        assert((frames - 1) * each >= 0) by (nonlinear_arith)
            requires
                frames >= 1,
                each > 0,
        ;
        let next = (frame + 1) % count;
        lemma_run_skips(durations, next, each, (frames - 1) as nat, rest);
        vstd::arithmetic::div_mod::lemma_add_mod_noop(frame + 1, frames - 1, count);
        vstd::arithmetic::div_mod::lemma_mod_twice(frame + 1, count);
        vstd::arithmetic::div_mod::lemma_add_mod_noop(next, frames - 1, count);
        assert(frame + 1 + (frames - 1) == frame + frames);
    }
}

/// The frames from any frame on take no negative time together.
pub proof fn lemma_time_left(durations: Seq<u64>, frame: int)
    ensures
        0 <= time_left(durations, frame),
        0 <= frame < durations.len() ==> durations[frame] <= time_left(durations, frame),
    decreases durations.len() - frame,
{
    if 0 <= frame < durations.len() {
        lemma_time_left(durations, frame + 1);
    }
}

/// With more on the clock than its frames from `frame` on take together,
/// a sequence that does not repeat comes to its last frame, with the time
/// of that frame on the clock.
pub proof fn lemma_run_once_completes(durations: Seq<u64>, frame: int, timer: int)
    requires
        0 <= frame < durations.len(),
        timer > time_left(durations, frame),
    ensures
        run_once(durations, frame, timer) == (
            durations.len() - 1,
            durations[durations.len() - 1] as int,
        ),
    decreases durations.len() - frame,
{
    lemma_time_left(durations, frame + 1);
    if frame < durations.len() - 1 {
        lemma_run_once_completes(durations, frame + 1, timer - durations[frame]);
    }
}

/// A sequence that does not repeat never leaves its last frame: however
/// much time passes there, it stays on that frame, has come to an end, and
/// has no more on its clock than the time of that frame.
pub proof fn lemma_stopped_stays(film: Film, duration: u64)
    requires
        film.wf(),
        !film.repeating,
        !film.frames_remaining(),
    ensures
        film.advance_by(duration).frame == film.frame,
        film.advance_by(duration).finish(),
        film.advance_by(duration).clock == vstd::math::min(
            film.clock + duration,
            film.durations[film.frame] as int,
        ),
{
}

/// A sequence that does not repeat never goes back: the frame that it is
/// on after any time is its frame before or a later one.
pub proof fn lemma_once_never_goes_back(film: Film, duration: u64)
    requires
        film.wf(),
        !film.repeating,
    ensures
        film.frame <= film.advance_by(duration).frame < film.frames.len(),
        film.advance_by(duration).clock <= film.durations[film.advance_by(duration).frame],
{
    lemma_run_once_lands(film.durations, film.frame, film.clock + duration);
}

/// A sequence that does not repeat and is given more time than all the
/// frames that it has left take together ends on its last frame: it has
/// come to an end, its clock shows the time of that frame, and whatever
/// time passes after that changes nothing. This holds in particular of a
/// fresh sequence that is given more than the time of all its frames.
pub proof fn lemma_once_completes(film: Film, duration: u64, more: u64)
    requires
        film.wf(),
        !film.repeating,
        film.clock + duration > time_left(film.durations, film.frame),
    ensures
        film.advance_by(duration).frame == film.frames.len() - 1,
        film.advance_by(duration).finish(),
        film.advance_by(duration).clock == film.durations[film.frames.len() - 1],
        film.advance_by(duration).wf(),
        film.advance_by(duration).advance_by(more) == film.advance_by(duration),
{
    lemma_run_once_completes(film.durations, film.frame, film.clock + duration);
}

} // verus!
