//! Where the player is in the track, and which line of the lyrics is current.

use tokio::time::Instant;
use vstd::prelude::*;

use crate::events::{
    lines_view, lyrics_view, Event, EventView, LineInfo, LineInfoView, LyricLine, LyricLineView,
};
use crate::lyrics::{law_lines_are_chained, lrc_lines, lrc_readable};

verus! {

/// Declares `tokio::time::Instant`, a reading of a clock. What a value holds is
/// known by `reading_nanos` alone.
#[verifier::external_type_specification]
#[verifier::external_body]
pub struct ExInstant(tokio::time::Instant);

/// Trusted: reads the clock by `tokio::time::Instant::now`. Nothing is claimed
/// of the reading, which is another one at each call; that of two calls the
/// second does not read less is left unsaid.
#[verifier::external_body]
fn clock_now() -> Instant {
    Instant::now()
}

/// The clock gave this reading: it is what a call of `clock_now` returned.
pub closed spec fn is_clock_reading(i: Instant) -> bool {
    call_ensures(clock_now, (), i)
}

/// Nothing is a reading of the clock but what a call of `clock_now` returned.
proof fn law_readings_come_from_the_clock(i: Instant)
    ensures
        is_clock_reading(i) ==> call_ensures(clock_now, (), i),
{
}

/// The time that a reading of the clock holds, in nanoseconds from a fixed
/// origin.
pub uninterp spec fn reading_nanos(i: Instant) -> int;

/// The whole milliseconds from one reading of the clock to another: zero where
/// the other is not later.
pub open spec fn millis_between(later: Instant, earlier: Instant) -> nat {
    if reading_nanos(later) > reading_nanos(earlier) {
        ((reading_nanos(later) - reading_nanos(earlier)) / 1_000_000) as nat
    } else {
        0
    }
}

/// Trusted: measures the time from `earlier` to `later` by
/// `tokio::time::Instant::saturating_duration_since`, in whole milliseconds.
/// Claimed is that each reading holds a number of nanoseconds, and that the
/// result is their difference in whole milliseconds, or zero where `earlier` is
/// the later one.
#[verifier::external_body]
fn millis_until(earlier: &Instant, later: &Instant) -> (r: u128)
    ensures
        r == (if reading_nanos(*later) > reading_nanos(*earlier) {
            (reading_nanos(*later) - reading_nanos(*earlier)) / 1_000_000
        } else {
            0
        }),
{
    later.saturating_duration_since(*earlier).as_millis()
}

/// Whether the player plays, and where it was at the last report.
pub struct PlaybackState {
    pub is_playing: bool,
    pub anchor_time: Instant,
    pub anchor_position_ms: u64,
}

impl PlaybackState {
    /// Where the player is `elapsed_ms` after the last report: it moves on only
    /// while it plays. The time is counted modulo 2^64.
    pub open spec fn position(&self, elapsed_ms: nat) -> nat {
        if self.is_playing {
            self.anchor_position_ms as nat + elapsed_ms % 0x1_0000_0000_0000_0000
        } else {
            self.anchor_position_ms as nat
        }
    }

    /// The position where it is below 2^64 milliseconds.
    pub open spec fn position_in_range(&self, elapsed_ms: nat) -> Option<u64> {
        if self.position(elapsed_ms) <= u64::MAX {
            Some(self.position(elapsed_ms) as u64)
        } else {
            None
        }
    }

    /// A player that stands at the start of its track, reported at `now`.
    pub fn new_at(now: Instant) -> (r: PlaybackState)
        ensures
            r == (PlaybackState { is_playing: false, anchor_time: now, anchor_position_ms: 0 }),
    {
        PlaybackState { is_playing: false, anchor_time: now, anchor_position_ms: 0 }
    }

    /// A player that stands at the start of its track, reported now.
    pub fn new() -> (r: PlaybackState)
        ensures
            !r.is_playing,
            r.anchor_position_ms == 0,
            is_clock_reading(r.anchor_time),
    {
        PlaybackState::new_at(clock_now())
    }

    /// Where the player is `elapsed_ms` after the last report.
    pub fn position_after(&self, elapsed_ms: u128) -> (r: u64)
        requires
            self.position(elapsed_ms as nat) <= u64::MAX,
        ensures
            r == self.position(elapsed_ms as nat),
    {
        if !self.is_playing {
            return self.anchor_position_ms;
        }
        self.anchor_position_ms + (elapsed_ms % 0x1_0000_0000_0000_0000) as u64
    }

    /// Where the player is `elapsed_ms` after the last report. `None` where that
    /// is not below 2^64 milliseconds.
    pub fn checked_position_after(&self, elapsed_ms: u128) -> (r: Option<u64>)
        ensures
            r == self.position_in_range(elapsed_ms as nat),
    {
        let room: u64 = u64::MAX - self.anchor_position_ms;
        if self.is_playing && elapsed_ms % 0x1_0000_0000_0000_0000 > room as u128 {
            None
        } else {
            Some(self.position_after(elapsed_ms))
        }
    }

    /// Where the player is when the clock reads `now`. `None` where that is not
    /// below 2^64 milliseconds. At the reading of the last report it is where it
    /// was reported.
    pub fn position_at(&self, now: Instant) -> (r: Option<u64>)
        ensures
            r == self.position_in_range(millis_between(now, self.anchor_time)),
            now == self.anchor_time ==> r == Some(self.anchor_position_ms),
    {
        self.checked_position_after(millis_until(&self.anchor_time, &now))
    }

    /// Where the player is now. `None` where that is not below 2^64
    /// milliseconds, which a player that does not play, or was reported at the
    /// start, never is. The time is what the clock reads; what that is, is left
    /// to the clock.
    pub fn current_position_ms(&self) -> (r: Option<u64>)
        ensures
            exists|now: Instant| #[trigger]
                is_clock_reading(now) && r == self.position_in_range(
                    millis_between(now, self.anchor_time),
                ),
            !self.is_playing ==> r == Some(self.anchor_position_ms),
            self.anchor_position_ms == 0 ==> r is Some,
            r matches Some(p) ==> p >= self.anchor_position_ms,
    {
        let now: Instant = clock_now();
        assert(is_clock_reading(now));
        self.position_at(now)
    }

    /// Takes a report of the position, made at `now`.
    pub fn update_position_at(&mut self, now: Instant, position_ms: u64)
        ensures
            *final(self) == (PlaybackState {
                is_playing: old(self).is_playing,
                anchor_time: now,
                anchor_position_ms: position_ms,
            }),
            final(self).position(0) == position_ms,
    {
        self.anchor_time = now;
        self.anchor_position_ms = position_ms;
    }

    /// Takes a report of the position, made now: the time of the report is a
    /// reading that the clock gave.
    pub fn update_position(&mut self, position_ms: u64)
        ensures
            final(self).is_playing == old(self).is_playing,
            final(self).anchor_position_ms == position_ms,
            final(self).position(0) == position_ms,
            is_clock_reading(final(self).anchor_time),
    {
        self.update_position_at(clock_now(), position_ms);
    }

    /// Takes a report of whether the player plays and where it is, made at `now`.
    pub fn set_playing_at(&mut self, now: Instant, playing: bool, position_ms: u64)
        ensures
            *final(self) == (PlaybackState {
                is_playing: playing,
                anchor_time: now,
                anchor_position_ms: position_ms,
            }),
            final(self).position(0) == position_ms,
    {
        self.is_playing = playing;
        self.update_position_at(now, position_ms);
    }

    /// Takes a report of whether the player plays and where it is, made now: the
    /// time of the report is a reading that the clock gave.
    pub fn set_playing(&mut self, playing: bool, position_ms: u64)
        ensures
            final(self).is_playing == playing,
            final(self).anchor_position_ms == position_ms,
            final(self).position(0) == position_ms,
            is_clock_reading(final(self).anchor_time),
    {
        self.set_playing_at(clock_now(), playing, position_ms);
    }
}

/// The lines start in the order in which they stand.
pub open spec fn in_order(lines: Seq<LyricLineView>) -> bool {
    forall|i: int, j: int| 0 <= i <= j < lines.len() ==> lines[i].start_ms <= lines[j].start_ms
}

/// The line at `i` is the one to show at `t`, among lines in order: it has
/// started, every later line starts after `t`, and it starts at `t` or has not
/// ended.
pub open spec fn is_shown(lines: Seq<LyricLineView>, t: u64, i: int) -> bool {
    &&& 0 <= i < lines.len()
    &&& lines[i].start_ms <= t
    &&& forall|j: int| i < j < lines.len() ==> lines[j].start_ms > t
    &&& lines[i].start_ms == t || t <= lines[i].end_ms
}

/// The place that halving finds for `t` among the `size` lines from `base` on:
/// of the two halves, the later one is kept where its first line does not start
/// after `t`.
pub open spec fn halving(lines: Seq<LyricLineView>, t: u64, base: int, size: int) -> int
    decreases size,
{
    if size <= 1 {
        base
    } else {
        let half = size / 2;
        halving(
            lines,
            t,
            if lines[base + half].start_ms > t {
                base
            } else {
                base + half
            },
            size - half,
        )
    }
}

/// The line that is current at `t`: the one that halving finds, where it starts
/// at `t`, or starts before and has not ended.
pub open spec fn current_line(lines: Seq<LyricLineView>, t: u64) -> Option<usize> {
    let i = halving(lines, t, 0, lines.len() as int);
    if lines.len() > 0 && (lines[i].start_ms == t || lines[i].start_ms < t <= lines[i].end_ms) {
        Some(i as usize)
    } else {
        None
    }
}

/// The place that halving finds does not start after `t`, unless it is the
/// first, and the next one does.
proof fn lemma_halving(lines: Seq<LyricLineView>, t: u64, base: int, size: int)
    requires
        0 <= base,
        1 <= size,
        base + size <= lines.len(),
        base > 0 ==> lines[base].start_ms <= t,
        base + size == lines.len() || lines[base + size].start_ms > t || (size > 1 && lines[base
            + size - 1].start_ms > t),
    ensures
        ({
            let i = halving(lines, t, base, size);
            &&& base <= i < base + size
            &&& i > 0 ==> lines[i].start_ms <= t
            &&& i + 1 < lines.len() ==> lines[i + 1].start_ms > t
        }),
    decreases size,
{
    if size > 1 {
        let half = size / 2;
        if lines[base + half].start_ms > t {
            // The part that is kept ends before the line that starts after `t`
            // or, where `size` is odd, with it.
            lemma_halving(lines, t, base, size - half);
        } else {
            lemma_halving(lines, t, base + half, size - half);
        }
    }
}

/// The line that is current at `position_ms`: among lines in order the one to
/// show then, and `None` where there is none to show.
pub fn find_current_line(lines: &[LyricLine], position_ms: u64) -> (r: Option<usize>)
    ensures
        in_order(lines_view(lines@)) ==> match r {
            Some(i) => is_shown(lines_view(lines@), position_ms, i as int),
            None => forall|i: int| !is_shown(lines_view(lines@), position_ms, i),
        },
        r == current_line(lines_view(lines@), position_ms),
        r matches Some(i) ==> i < lines@.len() && lines@[i as int].start_ms <= position_ms,
{
    let ghost view = lines_view(lines@);
    let n: usize = lines.len();
    proof {
        if in_order(view) {
            law_current_line_in_order(view, position_ms);
        }
    }
    if n == 0 {
        return None;
    }
    let mut base: usize = 0;
    let mut size: usize = n;
    while size > 1
        invariant
            n == lines@.len(),
            view == lines_view(lines@),
            1 <= size,
            base + size <= lines@.len(),
            halving(view, position_ms, 0, lines@.len() as int) == halving(
                view,
                position_ms,
                base as int,
                size as int,
            ),
        decreases size,
    {
        let half: usize = size / 2;
        let mid: usize = base + half;
        assert(view[mid as int].start_ms == lines@[mid as int].start_ms);
        if lines[mid].start_ms <= position_ms {
            base = mid;
        }
        size = size - half;
    }
    assert(view[base as int] == lines@[base as int]@);
    if lines[base].start_ms == position_ms {
        Some(base)
    } else if lines[base].start_ms < position_ms && position_ms <= lines[base].end_ms {
        Some(base)
    } else {
        None
    }
}

/// In lines that stand in order, the current line is the one to show, and no
/// line is current where there is none to show.
pub proof fn law_current_line_in_order(lines: Seq<LyricLineView>, t: u64)
    requires
        lines.len() <= usize::MAX,
        in_order(lines),
    ensures
        match current_line(lines, t) {
            Some(i) => is_shown(lines, t, i as int),
            None => forall|i: int| !is_shown(lines, t, i),
        },
{
    if lines.len() > 0 {
        lemma_halving(lines, t, 0, lines.len() as int);
        let h = halving(lines, t, 0, lines.len() as int);
        assert forall|j: int| h < j < lines.len() implies lines[j].start_ms > t by {
            assert(lines[h + 1].start_ms <= lines[j].start_ms);
        }
        assert forall|i: int| is_shown(lines, t, i) implies i == h by {
            if i < h {
                assert(lines[h].start_ms > t);
            }
        }
    }
}

/// Wherever the lines stand, the line that is current has started, and either
/// starts at `t`, or has not ended and is not yet followed.
pub proof fn law_current_line_shown(lines: Seq<LyricLineView>, t: u64)
    requires
        lines.len() <= usize::MAX,
    ensures
        current_line(lines, t) matches Some(i) ==> {
            &&& i < lines.len()
            &&& lines[i as int].start_ms == t || lines[i as int].start_ms < t
                <= lines[i as int].end_ms
            &&& i + 1 < lines.len() ==> lines[i + 1].start_ms > t
        },
{
    if lines.len() > 0 {
        lemma_halving(lines, t, 0, lines.len() as int);
    }
}

/// Lines in order, of which each ends when the next one starts, leave no gap.
proof fn lemma_chained_lines_leave_no_gap(lines: Seq<LyricLineView>, t: u64)
    requires
        0 < lines.len() <= usize::MAX,
        in_order(lines),
        forall|i: int|
            0 <= i < lines.len() - 1 ==> (#[trigger] lines[i]).end_ms == lines[i + 1].start_ms,
        lines.last().start_ms <= lines.last().end_ms,
    ensures
        current_line(lines, t) is Some <==> lines[0].start_ms <= t <= lines.last().end_ms,
{
    lemma_halving(lines, t, 0, lines.len() as int);
    let h = halving(lines, t, 0, lines.len() as int);
    assert(lines[0].start_ms <= lines[h].start_ms);
    assert(lines[h].start_ms <= lines.last().start_ms);
    if h + 1 < lines.len() {
        assert(lines[h].end_ms == lines[h + 1].start_ms);
        assert(lines[h + 1].start_ms <= lines.last().start_ms);
    }
}

/// The lyrics of an LRC file whose lines stand in order leave no gap: some line
/// is current from the start of the first line to the end of the last one, and
/// at no other time.
pub proof fn law_lyrics_leave_no_gap(lrc: Seq<char>, t: u64)
    requires
        lrc_readable(lrc),
        lrc_lines(lrc).len() <= usize::MAX,
        in_order(lrc_lines(lrc)),
    ensures
        current_line(lrc_lines(lrc), t) is Some <==> {
            &&& lrc_lines(lrc).len() > 0
            &&& lrc_lines(lrc)[0].start_ms <= t <= lrc_lines(lrc).last().end_ms
        },
{
    law_lines_are_chained(lrc);
    if lrc_lines(lrc).len() > 0 {
        lemma_chained_lines_leave_no_gap(lrc_lines(lrc), t);
    }
}

/// What is said of the line at `i`.
pub open spec fn line_info(lines: Seq<LyricLineView>, i: int) -> LineInfoView {
    LineInfoView { text: lines[i].text, start_ms: lines[i].start_ms }
}

/// The event for another current line: that line and the next one, or an empty
/// line where none is current.
pub open spec fn line_event(
    lines: Seq<LyricLineView>,
    current: Option<usize>,
    position_ms: u64,
) -> EventView {
    match current {
        Some(i) => EventView::Line {
            current: line_info(lines, i as int),
            next: if i + 1 < lines.len() {
                Some(line_info(lines, i + 1))
            } else {
                None
            },
            position_ms,
        },
        None => EventView::Line {
            current: LineInfoView { text: Seq::empty(), start_ms: 0 },
            next: None,
            position_ms,
        },
    }
}

/// A tick of the display: the line that was last announced after it, and the
/// event it gives. Nothing happens while the player does not play or there are
/// no lyrics, and nothing is announced twice.
pub open spec fn ticked(
    playing: bool,
    lyrics: Option<Seq<LyricLineView>>,
    announced: Option<usize>,
    position_ms: u64,
) -> (Option<usize>, Option<EventView>) {
    match lyrics {
        Some(lines) => {
            let current = current_line(lines, position_ms);
            if playing && current != announced {
                (current, Some(line_event(lines, current, position_ms)))
            } else {
                (announced, None)
            }
        },
        None => (announced, None),
    }
}

/// The view of an event that may be absent.
pub open spec fn event_view(event: Option<Event>) -> Option<EventView> {
    match event {
        Some(e) => Some(e@),
        None => None,
    }
}

/// The player and the lyrics of its track.
pub struct SyncEngine {
    pub playback: PlaybackState,
    pub lyrics: Option<Vec<LyricLine>>,
}

/// The outcome of a tick.
pub enum Tick {
    /// The event to send, if any.
    Done(Option<Event>),
    /// The position is not below 2^64 milliseconds.
    OutOfRange,
}

impl SyncEngine {
    /// The outcome of a tick `elapsed_ms` after the last report: that of a tick
    /// at the position the player then has, or nothing but a notice where that
    /// position is out of range. `was` is the line that was last announced
    /// before, and `is` the one after.
    pub open spec fn tick_outcome(
        &self,
        elapsed_ms: nat,
        was: Option<usize>,
        is: Option<usize>,
        r: Tick,
    ) -> bool {
        match self.playback.position_in_range(elapsed_ms) {
            Some(position_ms) => r matches Tick::Done(event) && (is, event_view(event)) == ticked(
                self.playback.is_playing,
                lyrics_view(self.lyrics),
                was,
                position_ms,
            ),
            None => r is OutOfRange && is == was,
        }
    }

    /// An engine without lyrics, for a player reported at `now` to stand at the
    /// start.
    pub fn new_at(now: Instant) -> (r: SyncEngine)
        ensures
            r.playback == (PlaybackState {
                is_playing: false,
                anchor_time: now,
                anchor_position_ms: 0,
            }),
            r.lyrics is None,
    {
        SyncEngine { playback: PlaybackState::new_at(now), lyrics: None }
    }

    /// An engine without lyrics, for a player that stands at the start.
    pub fn new() -> (r: SyncEngine)
        ensures
            !r.playback.is_playing,
            r.playback.anchor_position_ms == 0,
            is_clock_reading(r.playback.anchor_time),
            r.lyrics is None,
    {
        SyncEngine::new_at(clock_now())
    }

    /// Replaces the lyrics.
    pub fn set_lyrics(&mut self, lines: Option<Vec<LyricLine>>)
        ensures
            final(self).lyrics == lines,
            final(self).playback == old(self).playback,
    {
        self.lyrics = lines;
    }

    /// A tick of the display at `position_ms`. `announced` is the line that was
    /// last announced.
    pub fn tick_at(&self, announced: &mut Option<usize>, position_ms: u64) -> (event: Option<
        Event,
    >)
        ensures
            (*final(announced), event_view(event)) == ticked(
                self.playback.is_playing,
                lyrics_view(self.lyrics),
                *old(announced),
                position_ms,
            ),
    {
        if !self.playback.is_playing {
            return None;
        }
        let lines: &Vec<LyricLine> = match &self.lyrics {
            Some(lines) => lines,
            None => return None,
        };
        let current: Option<usize> = find_current_line(lines.as_slice(), position_ms);
        if same_line(current, *announced) {
            return None;
        }
        *announced = current;
        let n: usize = lines.len();
        match current {
            Some(i) => {
                assert(lines_view(lines@)[i as int] == lines@[i as int]@);
                let next: Option<LineInfo> = if i + 1 < n {
                    assert(lines_view(lines@)[i + 1] == lines@[i + 1]@);
                    Some(
                        LineInfo {
                            text: lines[i + 1].text.clone(),
                            start_ms: lines[i + 1].start_ms,
                        },
                    )
                } else {
                    None
                };
                Some(
                    Event::Line {
                        current: LineInfo {
                            text: lines[i].text.clone(),
                            start_ms: lines[i].start_ms,
                        },
                        next,
                        position_ms,
                    },
                )
            },
            None => Some(
                Event::Line {
                    current: LineInfo { text: String::new(), start_ms: 0 },
                    next: None,
                    position_ms,
                },
            ),
        }
    }

    /// A tick of the display when the clock reads `now`.
    pub fn tick_when(&self, announced: &mut Option<usize>, now: Instant) -> (r: Tick)
        ensures
            self.tick_outcome(
                millis_between(now, self.playback.anchor_time),
                *old(announced),
                *final(announced),
                r,
            ),
    {
        match self.playback.position_at(now) {
            Some(position_ms) => Tick::Done(self.tick_at(announced, position_ms)),
            None => Tick::OutOfRange,
        }
    }

    /// A tick of the display now. The time is what the clock reads; what that is,
    /// is left to the clock.
    pub fn tick(&self, announced: &mut Option<usize>) -> (r: Tick)
        ensures
            exists|now: Instant| #[trigger]
                is_clock_reading(now) && self.tick_outcome(
                    millis_between(now, self.playback.anchor_time),
                    *old(announced),
                    *final(announced),
                    r,
                ),
            !self.playback.is_playing ==> r == Tick::Done(None) && *final(announced) == *old(
                announced,
            ),
            self.playback.anchor_position_ms == 0 ==> r is Done,
    {
        let now: Instant = clock_now();
        assert(is_clock_reading(now));
        self.tick_when(announced, now)
    }
}

/// Whether two announcements are of the same line.
fn same_line(a: Option<usize>, b: Option<usize>) -> (r: bool)
    ensures
        r == (a == b),
{
    match (a, b) {
        (Some(i), Some(j)) => i == j,
        (None, None) => true,
        _ => false,
    }
}

/// A line is announced once: a second tick at the same position gives no event
/// and announces nothing else.
pub proof fn law_tick_is_idempotent(
    playing: bool,
    lyrics: Option<Seq<LyricLineView>>,
    announced: Option<usize>,
    position_ms: u64,
)
    ensures
        ticked(
            playing,
            lyrics,
            ticked(playing, lyrics, announced, position_ms).0,
            position_ms,
        ) == (ticked(playing, lyrics, announced, position_ms).0, None::<EventView>),
{
}

/// While the player plays and has lyrics, the line that was last announced is
/// the current one after every tick, whatever was announced before.
pub proof fn law_announced_is_current(
    lines: Seq<LyricLineView>,
    announced: Option<usize>,
    position_ms: u64,
)
    ensures
        ticked(true, Some(lines), announced, position_ms).0 == current_line(lines, position_ms),
{
}

/// The position does not move while the player does not play, and never moves
/// back while it does, as long as less than 2^64 milliseconds pass.
pub proof fn law_position_moves_on(state: PlaybackState, earlier_ms: nat, later_ms: nat)
    requires
        earlier_ms <= later_ms <= u64::MAX,
    ensures
        state.position(earlier_ms) <= state.position(later_ms),
        state.is_playing ==> state.position(later_ms) - state.position(earlier_ms) == later_ms
            - earlier_ms,
        !state.is_playing ==> state.position(later_ms) == state.anchor_position_ms,
{
}

/// Of two readings of the clock in order, the later one gives the position that
/// is no smaller, and neither gives one before the last report; a player that
/// does not play is where it was reported at both. Where the earlier one gives
/// none, for want of range, the later one gives none. Less than 2^64
/// milliseconds pass between the report and the later reading.
pub proof fn law_later_reading_is_no_smaller(
    state: PlaybackState,
    earlier: Instant,
    later: Instant,
)
    requires
        reading_nanos(earlier) <= reading_nanos(later),
        millis_between(later, state.anchor_time) <= u64::MAX,
    ensures
        match (
            state.position_in_range(millis_between(earlier, state.anchor_time)),
            state.position_in_range(millis_between(later, state.anchor_time)),
        ) {
            (Some(r1), Some(r2)) => state.anchor_position_ms <= r1 <= r2 && (!state.is_playing ==> r1
                == r2 == state.anchor_position_ms),
            (Some(r1), None) => state.is_playing && state.anchor_position_ms <= r1,
            (None, r2) => state.is_playing && r2 is None,
        },
{
    let e = millis_between(earlier, state.anchor_time);
    let l = millis_between(later, state.anchor_time);
    assert(e <= l);
    law_position_moves_on(state, e, l);
}

/// The time between two readings is counted in whole milliseconds: those that
/// have passed, and no more, where the other reading is not the earlier one, and
/// else none.
pub proof fn law_whole_milliseconds_pass(later: Instant, earlier: Instant)
    ensures
        reading_nanos(later) >= reading_nanos(earlier) ==> {
            let nanos = reading_nanos(later) - reading_nanos(earlier);
            millis_between(later, earlier) * 1_000_000 <= nanos < (millis_between(later, earlier)
                + 1) * 1_000_000
        },
        reading_nanos(later) < reading_nanos(earlier) ==> millis_between(later, earlier) == 0,
{
}

/// A player that plays is ahead of its last report by the time that has passed,
/// and one that does not is where it was reported. It has a position as long as that
/// is below 2^64 milliseconds.
pub proof fn law_position_counts_from_the_report(state: PlaybackState, elapsed_ms: nat)
    requires
        elapsed_ms <= u64::MAX,
    ensures
        !state.is_playing ==> state.position_in_range(elapsed_ms) == Some(
            state.anchor_position_ms,
        ),
        state.is_playing && state.anchor_position_ms + elapsed_ms <= u64::MAX
            ==> state.position_in_range(elapsed_ms) == Some(
            (state.anchor_position_ms + elapsed_ms) as u64,
        ),
        state.is_playing && state.anchor_position_ms + elapsed_ms > u64::MAX
            ==> state.position_in_range(elapsed_ms) is None,
{
}

/// The time is counted modulo 2^64 milliseconds.
pub proof fn law_position_wraps_the_time(state: PlaybackState, elapsed_ms: nat)
    ensures
        state.position(elapsed_ms + 0x1_0000_0000_0000_0000) == state.position(elapsed_ms),
        state.position_in_range(elapsed_ms + 0x1_0000_0000_0000_0000) == state.position_in_range(
            elapsed_ms,
        ),
{
}

/// A report counts from the reading of the clock that it was made at: for every
/// reading `before` that is not later and every reading `after` that is not
/// earlier, the position at `after` is no less than the one reported, and no more
/// than that and the time from `before` to `after`. The position at the reading
/// of the report itself is the one reported.
pub proof fn law_report_counts_from_its_reading(
    reported: PlaybackState,
    before: Instant,
    after: Instant,
)
    requires
        reading_nanos(before) <= reading_nanos(reported.anchor_time) <= reading_nanos(after),
        reading_nanos(after) - reading_nanos(reported.anchor_time) <= u64::MAX * 1_000_000,
    ensures
        reported.position_in_range(millis_between(after, reported.anchor_time)) matches Some(p)
            ==> reported.anchor_position_ms <= p && (p - reported.anchor_position_ms) * 1_000_000
            <= reading_nanos(after) - reading_nanos(before),
        reported.position_in_range(
            millis_between(reported.anchor_time, reported.anchor_time),
        ) == Some(reported.anchor_position_ms),
{
    law_whole_milliseconds_pass(after, reported.anchor_time);
}

/// Among lines that start in the order in which they stand, the line at `i` is
/// current at `t` exactly when it is the last that has started, and starts at `t`
/// or has not ended.
pub proof fn law_last_started_line_is_current(lines: Seq<LyricLineView>, t: u64, i: int)
    requires
        lines.len() <= usize::MAX,
        0 <= i < lines.len(),
        forall|j: int, k: int| 0 <= j <= k < lines.len() ==> lines[j].start_ms <= lines[k].start_ms,
    ensures
        current_line(lines, t) == Some(i as usize) <==> {
            &&& lines[i].start_ms <= t
            &&& forall|j: int| i < j < lines.len() ==> lines[j].start_ms > t
            &&& t == lines[i].start_ms || t <= lines[i].end_ms
        },
{
    assert(in_order(lines));
    law_current_line_in_order(lines, t);
    if is_shown(lines, t, i) {
        let c = current_line(lines, t)->0 as int;
        assert(is_shown(lines, t, c));
        assert(!(c < i) && !(i < c));
    }
}

/// Where the lines that have started at `t` are the first `k`, in whatever order
/// they stand, the last of these is current where it starts at `t` or has not
/// ended, and else, or where none has started, no line is.
pub proof fn law_current_line_follows_the_started(lines: Seq<LyricLineView>, t: u64, k: int)
    requires
        lines.len() <= usize::MAX,
        0 <= k <= lines.len(),
        forall|j: int| 0 <= j < k ==> lines[j].start_ms <= t,
        forall|j: int| k <= j < lines.len() ==> lines[j].start_ms > t,
    ensures
        current_line(lines, t) == (if k > 0 && (lines[k - 1].start_ms == t || t <= lines[k
            - 1].end_ms) {
            Some((k - 1) as usize)
        } else {
            None
        }),
{
    if lines.len() > 0 {
        lemma_halving(lines, t, 0, lines.len() as int);
        let h = halving(lines, t, 0, lines.len() as int);
        if k > 0 {
            assert(h < k);
            assert(h + 1 < lines.len() ==> h + 1 >= k);
        } else {
            assert(lines[0].start_ms > t);
        }
    }
}

/// A tick that announces a line says what the line is and which one comes next:
/// the text and the start of the current line and, unless that is the last one,
/// those of the line behind it, at the position of the tick. Among lines in
/// order, no line starts between the two.
pub proof fn law_line_event_tells_current_and_next(
    lines: Seq<LyricLineView>,
    announced: Option<usize>,
    t: u64,
    i: int,
)
    requires
        lines.len() <= usize::MAX,
        0 <= i < lines.len(),
        current_line(lines, t) == Some(i as usize),
        announced != Some(i as usize),
    ensures
        ticked(true, Some(lines), announced, t).0 == Some(i as usize),
        ticked(true, Some(lines), announced, t).1 matches Some(
            EventView::Line { current, next, position_ms },
        ) && {
            &&& current.text == lines[i].text
            &&& current.start_ms == lines[i].start_ms
            &&& position_ms == t
            &&& next is None <==> i == lines.len() - 1
            &&& next matches Some(n) ==> n.text == lines[i + 1].text && n.start_ms == lines[i
                + 1].start_ms
            &&& (forall|j: int, k: int|
                0 <= j <= k < lines.len() ==> lines[j].start_ms <= lines[k].start_ms) ==> (
            next matches Some(n) ==> n.start_ms > t && forall|k: int|
                0 <= k < lines.len() ==> !(current.start_ms < (#[trigger] lines[k]).start_ms
                    < n.start_ms))
        },
{
    law_current_line_shown(lines, t);
    if forall|j: int, k: int|
        0 <= j <= k < lines.len() ==> lines[j].start_ms <= lines[k].start_ms {
        assert forall|k: int| 0 <= k < lines.len() && i + 1 < lines.len() implies !(
        lines[i].start_ms < (#[trigger] lines[k]).start_ms < lines[i + 1].start_ms) by {
            if k <= i {
                assert(lines[k].start_ms <= lines[i].start_ms);
            } else {
                assert(lines[i + 1].start_ms <= lines[k].start_ms);
            }
        }
    }
}

/// A tick at which no line is current, after one was announced, announces an
/// empty line without a next one, at the position of the tick.
pub proof fn law_end_of_line_is_told(lines: Seq<LyricLineView>, announced: Option<usize>, t: u64)
    requires
        current_line(lines, t) is None,
        announced is Some,
    ensures
        ticked(true, Some(lines), announced, t).0 is None,
        ticked(true, Some(lines), announced, t).1 matches Some(
            EventView::Line { current, next, position_ms },
        ) && current.text.len() == 0 && current.start_ms == 0 && next is None && position_ms == t,
{
}

/// A tick tells nothing, and leaves what was announced, exactly when the player
/// does not play, there are no lyrics, or what is current has been announced.
pub proof fn law_tick_tells_changes_only(
    playing: bool,
    lyrics: Option<Seq<LyricLineView>>,
    announced: Option<usize>,
    t: u64,
)
    ensures
        ticked(playing, lyrics, announced, t).1 is None <==> {
            ||| !playing
            ||| lyrics is None
            ||| (lyrics matches Some(lines) && current_line(lines, t) == announced)
        },
        ticked(playing, lyrics, announced, t).1 is None ==> ticked(
            playing,
            lyrics,
            announced,
            t,
        ).0 == announced,
{
}

/// A tick some time after the last report is one at the position that the player
/// then has. Where that is not below 2^64 milliseconds it announces nothing and
/// says so.
pub proof fn law_tick_is_at_the_position(
    engine: SyncEngine,
    elapsed_ms: nat,
    was: Option<usize>,
    is: Option<usize>,
    r: Tick,
)
    requires
        engine.tick_outcome(elapsed_ms, was, is, r),
    ensures
        match engine.playback.position_in_range(elapsed_ms) {
            Some(p) => match r {
                Tick::Done(event) => {
                    let (announced, told) = ticked(
                        engine.playback.is_playing,
                        lyrics_view(engine.lyrics),
                        was,
                        p,
                    );
                    &&& is == announced
                    &&& event is None <==> told is None
                    &&& event matches Some(e) ==> told == Some(e@)
                },
                Tick::OutOfRange => false,
            },
            None => r is OutOfRange && is == was,
        },
{
}

/// An event that may be absent is seen as what it is.
pub proof fn law_event_view(event: Option<Event>)
    ensures
        event_view(event) is None <==> event is None,
        event matches Some(e) ==> event_view(event) == Some(e@),
{
}

} // verus!
