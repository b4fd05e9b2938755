//! Where the cursor is, where it came from, and when it last moved.
use crate::clock::{duration_between, is_reading, whole_millis};
use std::time::Instant;
use vstd::prelude::*;

verus! {

/// The shape that the cursor is drawn in.
#[derive(Debug, Clone, Copy, PartialEq, Eq, Structural)]
pub enum CursorShape {
    Default,
    BlinkingBlock,
    SteadyBlock,
    BlinkingUnderline,
    SteadyUnderline,
    BlinkingBar,
    SteadyBar,
}

/// Whether the cursor is shown.
#[derive(Debug, Clone, Copy, PartialEq, Eq, Structural)]
pub enum CursorVisibility {
    Hidden,
    Visible,
}

/// A cursor position whose row does not change as the scrollback grows.
#[derive(Debug, Clone, Copy, PartialEq, Eq, Structural)]
pub struct StableCursorPosition {
    pub x: usize,
    pub y: isize,
    pub shape: CursorShape,
    pub visibility: CursorVisibility,
}

/// The top left cell, with the default shape, visible.
pub open spec fn home_position() -> StableCursorPosition {
    StableCursorPosition {
        x: 0,
        y: 0,
        shape: CursorShape::Default,
        visibility: CursorVisibility::Visible,
    }
}

impl Default for StableCursorPosition {
    fn default() -> (position: Self)
        ensures
            position == home_position(),
            position.x == 0,
            position.y == 0,
            position.shape == CursorShape::Default,
            position.visibility == CursorVisibility::Visible,
    {
        StableCursorPosition {
            x: 0,
            y: 0,
            shape: CursorShape::Default,
            visibility: CursorVisibility::Visible,
        }
    }
}

/// A cursor that stood still for more than this many milliseconds has come to rest:
/// its next move starts from where it rests.
pub const REST_MILLIS: u128 = 50;

/// What a [`PrevCursorPos`] knows.
pub struct CursorTrack {
    /// Where the cursor is.
    pub position: StableCursorPosition,
    /// Where the cursor was before the last run of moves.
    pub prev_position: StableCursorPosition,
    /// When the cursor last moved, or was last made to look like it.
    pub moved_at: Instant,
}

impl CursorTrack {
    /// The track after the cursor was seen at `newpos`, `still_millis` milliseconds
    /// after it last moved, when the clock showed `now`.
    pub open spec fn after_still(
        self,
        newpos: StableCursorPosition,
        now: Instant,
        still_millis: u128,
    ) -> CursorTrack {
        if newpos == self.position {
            self
        } else {
            CursorTrack {
                position: newpos,
                prev_position: if still_millis > REST_MILLIS {
                    self.position
                } else {
                    self.prev_position
                },
                moved_at: now,
            }
        }
    }

    /// How many whole milliseconds the cursor has stood still when the clock shows `now`.
    pub open spec fn still_millis(self, now: Instant) -> u128 {
        whole_millis(duration_between(now, self.moved_at))
    }

    /// The track after the cursor was seen at `newpos` when the clock showed `now`.
    pub open spec fn after_update(self, newpos: StableCursorPosition, now: Instant) -> CursorTrack {
        self.after_still(newpos, now, self.still_millis(now))
    }

    /// The track after the cursor was made to look like it moved at `now`.
    pub open spec fn after_bump(self, now: Instant) -> CursorTrack {
        CursorTrack { moved_at: now, ..self }
    }

    /// The track after a run of sightings, each a position and the clock's reading.
    pub open spec fn after_updates(self, seen: Seq<(StableCursorPosition, Instant)>) -> CursorTrack
        decreases seen.len(),
    {
        if seen.len() == 0 {
            self
        } else {
            self.after_updates(seen.drop_last()).after_update(seen.last().0, seen.last().1)
        }
    }
}

/// Tracks the cursor from one frame to the next.
pub struct PrevCursorPos {
    pos: StableCursorPosition,
    prev_pos: StableCursorPosition,
    when: Instant,
}

impl View for PrevCursorPos {
    type V = CursorTrack;

    closed spec fn view(&self) -> CursorTrack {
        CursorTrack { position: self.pos, prev_position: self.prev_pos, moved_at: self.when }
    }
}

impl Clone for PrevCursorPos {
    fn clone(&self) -> (copy: Self)
        ensures
            copy == *self,
    {
        PrevCursorPos { pos: self.pos, prev_pos: self.prev_pos, when: self.when }
    }
}

impl PrevCursorPos {
    /// A cursor that has just moved to the home position, from the home position: the
    /// clock's reading is the time of its last move.
    pub fn new() -> (cursor: Self)
        ensures
            cursor@.position == home_position(),
            cursor@.prev_position == home_position(),
            is_reading(cursor@.moved_at),
    {
        PrevCursorPos {
            pos: StableCursorPosition::default(),
            prev_pos: StableCursorPosition::default(),
            when: Instant::now(),
        }
    }

    /// Make the cursor look like it moved
    pub fn bump(&mut self)
        ensures
            final(self)@.position == old(self)@.position,
            final(self)@.prev_position == old(self)@.prev_position,
            exists|now: Instant|
                is_reading(now) && final(self)@ == #[trigger] old(self)@.after_bump(now),
    {
        let now = Instant::now();
        self.bump_at(now);
    }

    /// Make the cursor look like it moved when the clock showed `now`.
    pub fn bump_at(&mut self, now: Instant)
        ensures
            final(self)@ == old(self)@.after_bump(now),
    {
        self.when = now;
    }

    /// Update the cursor position if it is different.
    /// Only updates the previous position if the cursor was stationary for a while,
    /// so that rapid consecutive moves preserve the original "from" position.
    pub fn update(&mut self, newpos: &StableCursorPosition)
        ensures
            final(self)@.position == *newpos,
            *newpos == old(self)@.position ==> final(self)@ == old(self)@,
            *newpos != old(self)@.position ==> exists|now: Instant|
                is_reading(now) && final(self)@ == #[trigger] old(self)@.after_update(*newpos, now),
    {
        if self.pos != *newpos {
            let now = Instant::now();
            self.update_at(newpos, now);
        }
    }

    /// [`PrevCursorPos::update`] when the clock shows `now`.
    pub fn update_at(&mut self, newpos: &StableCursorPosition, now: Instant)
        ensures
            final(self)@ == old(self)@.after_update(*newpos, now),
    {
        let gap = now.duration_since(self.when);
        self.update_after_still(newpos, now, gap.as_millis());
    }

    /// [`PrevCursorPos::update`] when the clock shows `now` and the cursor has stood
    /// still for `still_millis` milliseconds.
    pub fn update_after_still(
        &mut self,
        newpos: &StableCursorPosition,
        now: Instant,
        still_millis: u128,
    )
        ensures
            final(self)@ == old(self)@.after_still(*newpos, now, still_millis),
    {
        if self.pos != *newpos {
            // Only record prev_pos if the cursor came to rest
            if still_millis > REST_MILLIS {
                self.prev_pos = self.pos;
            }
            self.pos = *newpos;
            self.when = now;
        }
    }

    /// When did the cursor last move?
    pub fn last_cursor_movement(&self) -> (moved: Instant)
        ensures
            moved == self@.moved_at,
    {
        self.when
    }

    /// Return the current cursor position
    pub fn position(&self) -> (position: &StableCursorPosition)
        ensures
            *position == self@.position,
    {
        &self.pos
    }

    /// Return the position before the last move, or before the first of a run of rapid
    /// moves
    pub fn prev_position(&self) -> (position: &StableCursorPosition)
        ensures
            *position == self@.prev_position,
    {
        &self.prev_pos
    }
}

/// Seeing the cursor where it already is changes nothing, not even the time of its
/// last move.
pub proof fn law_unmoved_cursor_is_untouched(track: CursorTrack, now: Instant)
    ensures
        track.after_update(track.position, now) == track,
{
}

/// Seeing the cursor twice at one position is the same as seeing it there once.
pub proof fn law_repeated_update_is_one_update(
    track: CursorTrack,
    newpos: StableCursorPosition,
    first: Instant,
    second: Instant,
)
    ensures
        track.after_update(newpos, first).after_update(newpos, second)
            == track.after_update(newpos, first),
{
}

/// Whether it came from rest or not, a cursor that moves is where it was seen, and the
/// clock's reading becomes the time of its last move.
pub proof fn law_every_move_is_timed(
    track: CursorTrack,
    newpos: StableCursorPosition,
    now: Instant,
    stood: u128,
)
    requires
        newpos != track.position,
    ensures
        track.after_update(newpos, now).position == newpos,
        track.after_update(newpos, now).moved_at == now,
        track.after_still(newpos, now, stood).position == newpos,
        track.after_still(newpos, now, stood).moved_at == now,
{
}

/// How long the cursor stood decides where it came from, and nothing else: the longer
/// it stood, the sooner it came from where it stood, and 50 milliseconds are the most
/// that do not count as rest.
pub proof fn law_only_rest_decides_the_origin(
    track: CursorTrack,
    newpos: StableCursorPosition,
    now: Instant,
    shorter: u128,
    longer: u128,
)
    requires
        newpos != track.position,
        shorter <= longer,
    ensures
        longer <= 50 ==> track.after_still(newpos, now, longer).prev_position
            == track.prev_position,
        shorter > 50 ==> track.after_still(newpos, now, shorter).prev_position == track.position,
        longer <= 50 || shorter > 50 ==> track.after_still(newpos, now, shorter)
            == track.after_still(newpos, now, longer),
        track.after_still(
            newpos,
            now,
            whole_millis(duration_between(now, track.moved_at)),
        ) == track.after_update(newpos, now),
        track.after_still(track.position, now, longer) == track,
{
}

/// Rapid moves, each at most 50 milliseconds after the one before by the clock's own
/// readings: the cursor is where it was last seen, moved when it was last seen, and
/// came from where it came from before the run.
pub proof fn law_rapid_readings_keep_origin(
    track: CursorTrack,
    seen: Seq<(StableCursorPosition, Instant)>,
)
    requires
        seen.len() > 0,
        seen[0].0 != track.position,
        whole_millis(duration_between(seen[0].1, track.moved_at)) <= 50,
        forall|i: int, j: int|
            0 <= i && j == i + 1 && j < seen.len() ==> {
                &&& (#[trigger] seen[j]).0 != (#[trigger] seen[i]).0
                &&& whole_millis(duration_between(seen[j].1, seen[i].1)) <= 50
            },
    ensures
        track.after_updates(seen).prev_position == track.prev_position,
        track.after_updates(seen).position == seen.last().0,
        track.after_updates(seen).moved_at == seen.last().1,
    decreases seen.len(),
{
    let front = seen.drop_last();
    if front.len() > 0 {
        assert forall|i: int, j: int| 0 <= i && j == i + 1 && j < front.len() implies {
            &&& (#[trigger] front[j]).0 != (#[trigger] front[i]).0
            &&& whole_millis(duration_between(front[j].1, front[i].1)) <= 50
        } by {
            assert(front[j] == seen[j] && front[i] == seen[i]);
        }
        law_rapid_readings_keep_origin(track, front);
        assert(front.last() == seen[seen.len() - 2]);
        assert(seen[seen.len() - 1].0 != seen[seen.len() - 2].0);
    } else {
        assert(front == Seq::<(StableCursorPosition, Instant)>::empty());
        assert(track.after_updates(front) == track);
    }
    assert(track.after_updates(seen) == track.after_updates(front).after_update(
        seen.last().0,
        seen.last().1,
    ));
}

/// A key held down: the first move comes from rest, each further one at most 50
/// milliseconds after the one before. The cursor has come from where it rested.
pub proof fn law_held_key_comes_from_rest(
    track: CursorTrack,
    first: StableCursorPosition,
    now: Instant,
    seen: Seq<(StableCursorPosition, Instant)>,
)
    requires
        first != track.position,
        whole_millis(duration_between(now, track.moved_at)) > 50,
        seen.len() > 0,
        seen[0].0 != first,
        whole_millis(duration_between(seen[0].1, now)) <= 50,
        forall|i: int, j: int|
            0 <= i && j == i + 1 && j < seen.len() ==> {
                &&& (#[trigger] seen[j]).0 != (#[trigger] seen[i]).0
                &&& whole_millis(duration_between(seen[j].1, seen[i].1)) <= 50
            },
    ensures
        track.after_update(first, now).after_updates(seen).prev_position == track.position,
        track.after_update(first, now).after_updates(seen).position == seen.last().0,
        track.after_update(first, now).after_updates(seen).moved_at == seen.last().1,
{
    law_rapid_readings_keep_origin(track.after_update(first, now), seen);
}

/// A cursor that moves after it came to rest has come from where it rested, and the
/// clock's reading becomes the time of its last move.
pub proof fn law_move_from_rest_records_origin(
    track: CursorTrack,
    newpos: StableCursorPosition,
    now: Instant,
)
    requires
        newpos != track.position,
        whole_millis(duration_between(now, track.moved_at)) > 50,
    ensures
        track.after_update(newpos, now).prev_position == track.position,
        track.after_update(newpos, now).position == newpos,
        track.after_update(newpos, now).moved_at == now,
{
}

/// A run of sightings in which the cursor never comes to rest before a move keeps the
/// position that the run started from, however long the run is.
pub proof fn law_rapid_moves_keep_origin(
    track: CursorTrack,
    seen: Seq<(StableCursorPosition, Instant)>,
)
    requires
        forall|i: int|
            0 <= i < seen.len() ==> {
                let before = track.after_updates(#[trigger] seen.take(i));
                seen[i].0 == before.position || whole_millis(
                    duration_between(seen[i].1, before.moved_at),
                ) <= 50
            },
    ensures
        track.after_updates(seen).prev_position == track.prev_position,
    decreases seen.len(),
{
    if seen.len() > 0 {
        let front = seen.drop_last();
        assert forall|i: int| 0 <= i < front.len() implies {
            let before = track.after_updates(#[trigger] front.take(i));
            front[i].0 == before.position || whole_millis(
                duration_between(front[i].1, before.moved_at),
            ) <= 50
        } by {
            assert(front.take(i) == seen.take(i));
        }
        law_rapid_moves_keep_origin(track, front);
        assert(seen.take(seen.len() - 1) == front);
    }
}

/// A first move from rest, then a run of rapid moves: the cursor has come from where
/// it rested, and is where it was last seen.
pub proof fn law_run_of_moves_starts_at_rest(
    track: CursorTrack,
    first: StableCursorPosition,
    now: Instant,
    seen: Seq<(StableCursorPosition, Instant)>,
)
    requires
        first != track.position,
        whole_millis(duration_between(now, track.moved_at)) > 50,
        forall|i: int|
            0 <= i < seen.len() ==> {
                let before = track.after_update(first, now).after_updates(#[trigger] seen.take(i));
                seen[i].0 == before.position || whole_millis(
                    duration_between(seen[i].1, before.moved_at),
                ) <= 50
            },
    ensures
        track.after_update(first, now).after_updates(seen).prev_position == track.position,
        track.after_update(first, now).after_updates(seen).position == (if seen.len() == 0 {
            first
        } else {
            seen.last().0
        }),
{
    law_rapid_moves_keep_origin(track.after_update(first, now), seen);
}

/// A bump moves nothing but the time of the last move, so a cursor that was at rest
/// and is bumped has to come to rest again before a move records where it was.
pub proof fn law_bump_disturbs_rest(
    track: CursorTrack,
    bumped: Instant,
    newpos: StableCursorPosition,
    now: Instant,
)
    requires
        whole_millis(duration_between(now, bumped)) <= 50,
    ensures
        track.after_bump(bumped).position == track.position,
        track.after_bump(bumped).prev_position == track.prev_position,
        track.after_bump(bumped).moved_at == bumped,
        track.after_bump(bumped).after_update(newpos, now).prev_position == track.prev_position,
{
}

} // verus!
