//! The lyric lines of a track and the events that the overlay is told about.
//!
//! Each type has a view, in which text is a sequence of characters; the
//! contracts of the library speak of the views.

use vstd::prelude::*;

verus! {

/// One line of lyrics, shown from `start_ms` to `end_ms` of the track.
#[derive(Debug)]
pub struct LyricLine {
    pub text: String,
    pub start_ms: u64,
    pub end_ms: u64,
    pub words: Vec<WordInfo>,
}

/// One word of a line, with the time it is sung at.
#[derive(Debug)]
pub struct WordInfo {
    pub text: String,
    pub start_ms: u64,
    pub end_ms: u64,
}

/// What an event says of a line: its text and when it starts.
#[derive(Debug)]
pub struct LineInfo {
    pub text: String,
    pub start_ms: u64,
}

/// What the overlay is told.
#[derive(Debug)]
pub enum Event {
    /// Another track has started.
    Track { title: String, artist: String, album: String, track_id: String, duration_ms: u32 },
    /// The lyrics of the track.
    Lyrics { lines: Vec<LyricLine>, sync_type: String },
    /// Another line has become current; `next` is the line after it.
    Line { current: LineInfo, next: Option<LineInfo>, position_ms: u64 },
    /// Whether the player plays, and where it is.
    State { playing: bool, position_ms: u64 },
    /// The track has no synced lyrics.
    NoLyrics,
}

#[verifier::ext_equal]
pub struct LyricLineView {
    pub text: Seq<char>,
    pub start_ms: u64,
    pub end_ms: u64,
    pub words: Seq<WordInfoView>,
}

#[verifier::ext_equal]
pub struct WordInfoView {
    pub text: Seq<char>,
    pub start_ms: u64,
    pub end_ms: u64,
}

#[verifier::ext_equal]
pub struct LineInfoView {
    pub text: Seq<char>,
    pub start_ms: u64,
}

#[verifier::ext_equal]
pub enum EventView {
    Track {
        title: Seq<char>,
        artist: Seq<char>,
        album: Seq<char>,
        track_id: Seq<char>,
        duration_ms: u32,
    },
    Lyrics { lines: Seq<LyricLineView>, sync_type: Seq<char> },
    Line { current: LineInfoView, next: Option<LineInfoView>, position_ms: u64 },
    State { playing: bool, position_ms: u64 },
    NoLyrics,
}

impl View for WordInfo {
    type V = WordInfoView;

    open spec fn view(&self) -> WordInfoView {
        WordInfoView { text: self.text@, start_ms: self.start_ms, end_ms: self.end_ms }
    }
}

impl View for LyricLine {
    type V = LyricLineView;

    open spec fn view(&self) -> LyricLineView {
        LyricLineView {
            text: self.text@,
            start_ms: self.start_ms,
            end_ms: self.end_ms,
            words: self.words@.map_values(|w: WordInfo| w@),
        }
    }
}

impl View for LineInfo {
    type V = LineInfoView;

    open spec fn view(&self) -> LineInfoView {
        LineInfoView { text: self.text@, start_ms: self.start_ms }
    }
}

/// The views of a sequence of lines.
pub open spec fn lines_view(lines: Seq<LyricLine>) -> Seq<LyricLineView> {
    lines.map_values(|l: LyricLine| l@)
}

/// The views of lyrics that may be absent.
pub open spec fn lyrics_view(lyrics: Option<Vec<LyricLine>>) -> Option<Seq<LyricLineView>> {
    match lyrics {
        Some(lines) => Some(lines_view(lines@)),
        None => None,
    }
}

impl View for Event {
    type V = EventView;

    open spec fn view(&self) -> EventView {
        match *self {
            Event::Track { title, artist, album, track_id, duration_ms } => EventView::Track {
                title: title@,
                artist: artist@,
                album: album@,
                track_id: track_id@,
                duration_ms,
            },
            Event::Lyrics { lines, sync_type } => EventView::Lyrics {
                lines: lines_view(lines@),
                sync_type: sync_type@,
            },
            Event::Line { current, next, position_ms } => EventView::Line {
                current: current@,
                next: match next {
                    Some(line) => Some(line@),
                    None => None,
                },
                position_ms,
            },
            Event::State { playing, position_ms } => EventView::State { playing, position_ms },
            Event::NoLyrics => EventView::NoLyrics,
        }
    }
}

impl Clone for WordInfo {
    fn clone(&self) -> (r: WordInfo)
        ensures
            r@ == self@,
    {
        WordInfo { text: self.text.clone(), start_ms: self.start_ms, end_ms: self.end_ms }
    }
}

impl Clone for LyricLine {
    fn clone(&self) -> (r: LyricLine)
        ensures
            r@ == self@,
    {
        let words: Vec<WordInfo> = self.words.clone();
        assert(words@.map_values(|w: WordInfo| w@) =~= self.words@.map_values(|w: WordInfo| w@));
        LyricLine {
            text: self.text.clone(),
            start_ms: self.start_ms,
            end_ms: self.end_ms,
            words,
        }
    }
}

/// A copy of `lines`, line by line.
pub fn clone_lines(lines: &Vec<LyricLine>) -> (r: Vec<LyricLine>)
    ensures
        lines_view(r@) == lines_view(lines@),
{
    let r: Vec<LyricLine> = lines.clone();
    assert(lines_view(r@) =~= lines_view(lines@));
    r
}

impl Clone for LineInfo {
    fn clone(&self) -> (r: LineInfo)
        ensures
            r@ == self@,
    {
        LineInfo { text: self.text.clone(), start_ms: self.start_ms }
    }
}

impl Clone for Event {
    fn clone(&self) -> (r: Event)
        ensures
            r@ == self@,
    {
        match self {
            Event::Track { title, artist, album, track_id, duration_ms } => Event::Track {
                title: title.clone(),
                artist: artist.clone(),
                album: album.clone(),
                track_id: track_id.clone(),
                duration_ms: *duration_ms,
            },
            Event::Lyrics { lines, sync_type } => Event::Lyrics {
                lines: clone_lines(lines),
                sync_type: sync_type.clone(),
            },
            Event::Line { current, next, position_ms } => Event::Line {
                current: current.clone(),
                next: match next {
                    Some(line) => Some(line.clone()),
                    None => None,
                },
                position_ms: *position_ms,
            },
            Event::State { playing, position_ms } => Event::State {
                playing: *playing,
                position_ms: *position_ms,
            },
            Event::NoLyrics => Event::NoLyrics,
        }
    }
}

/// A word, a line and what an event says of a line are seen as what they hold.
pub proof fn law_line_views(word: WordInfo, line: LyricLine, info: LineInfo)
    ensures
        word@ == (WordInfoView {
            text: word.text@,
            start_ms: word.start_ms,
            end_ms: word.end_ms,
        }),
        line@.text == line.text@,
        line@.start_ms == line.start_ms,
        line@.end_ms == line.end_ms,
        line@.words.len() == line.words@.len(),
        forall|i: int|
            0 <= i < line.words@.len() ==> #[trigger] line@.words[i] == line.words@[i]@,
        info@ == (LineInfoView { text: info.text@, start_ms: info.start_ms }),
{
}

/// Lyrics are seen line by line, in order, and absent lyrics as absent.
pub proof fn law_lyrics_view(lines: Vec<LyricLine>)
    ensures
        lyrics_view(None) is None,
        lyrics_view(Some(lines)) == Some(lines_view(lines@)),
        lines_view(lines@).len() == lines@.len(),
        forall|i: int| 0 <= i < lines@.len() ==> #[trigger] lines_view(lines@)[i] == lines@[i]@,
{
}

/// An event is seen as one of its kind that holds the same.
pub proof fn law_event_views(event: Event)
    ensures
        match event {
            Event::Track { title, artist, album, track_id, duration_ms } => event@
                == (EventView::Track {
                title: title@,
                artist: artist@,
                album: album@,
                track_id: track_id@,
                duration_ms,
            }),
            Event::Lyrics { lines, sync_type } => event@ == (EventView::Lyrics {
                lines: lines_view(lines@),
                sync_type: sync_type@,
            }),
            Event::Line { current, next, position_ms } => event@ matches EventView::Line {
                current: c,
                next: n,
                position_ms: p,
            } && c == current@ && p == position_ms && (n is None <==> next is None) && (
            next matches Some(line) ==> n == Some(line@)),
            Event::State { playing, position_ms } => event@ == (EventView::State {
                playing,
                position_ms,
            }),
            Event::NoLyrics => event@ is NoLyrics,
        },
{
}

} // verus!
