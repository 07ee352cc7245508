//! Synced lyrics: the LRC format and the exchange with the lyrics service.
//!
//! An LRC line is a timestamp in brackets and the text that is sung from then
//! on, such as `[01:02.50]Hello`. Lines of any other form are passed over.

use vstd::prelude::*;
use vstd::utf8::{encode_utf8, is_continuation_byte};

use crate::events::{lines_view, LyricLine, LyricLineView, WordInfo, WordInfoView};
use crate::http::{accepted, accepted_body, pairs_view, Reply};
use crate::text::{
    after, before, chars_of, decimal, decimal_digits, find_byte, find_char, first_index,
    is_white_space, law_trailing_space_is_dropped, law_trimmed_ends, lemma_first_index,
    lemma_first_index_bounds, lemma_trimmed_within, parse_unsigned, string_of, trim, trimmed, unsigned_value,
};

verus! {

/// Where the lyrics service is asked.
pub const LRCLIB_API: &'static str = "https://lrclib.net/api/get";

/// How the program names itself to the lyrics service.
pub const USER_AGENT: &'static str = "Playa/0.1.0";

/// How long the last line stays, in milliseconds.
pub const LAST_LINE_MS: u64 = 5000;

/// The part of the seconds field that holds the fraction: what stands between
/// its first point and the next, where it has a point.
pub open spec fn fraction(seconds: Seq<u8>) -> Option<Seq<u8>> {
    if seconds.contains(0x2e) {
        Some(before(after(seconds, 0x2e), 0x2e))
    } else {
        None
    }
}

/// The milliseconds of a fraction: tenths, hundredths or thousandths by its
/// length; what follows the third byte is left out.
pub open spec fn fraction_ms(frac: Seq<u8>) -> Option<nat> {
    let digits = if frac.len() > 3 {
        frac.take(3)
    } else {
        frac
    };
    match unsigned_value(digits) {
        Some(v) => Some(
            if frac.len() == 1 {
                v * 100
            } else if frac.len() == 2 {
                v * 10
            } else {
                v
            },
        ),
        None => None,
    }
}

/// A fraction can be cut to three bytes: it is not empty, and where it is
/// longer than that the cut does not fall inside a character.
pub open spec fn fraction_readable(frac: Seq<u8>) -> bool {
    frac.len() > 0 && (frac.len() > 3 ==> !is_continuation_byte(frac[3]))
}

/// The minutes of a timestamp and its seconds field: what stands on the two
/// sides of its only colon.
pub open spec fn fields(ts: Seq<u8>) -> Option<(Seq<u8>, Seq<u8>)> {
    if ts.contains(0x3a) && !after(ts, 0x3a).contains(0x3a) {
        Some((before(ts, 0x3a), after(ts, 0x3a)))
    } else {
        None
    }
}

/// The minutes of a timestamp, its whole seconds and its fraction, where the
/// first two are numbers.
pub open spec fn clock_reading(ts: Seq<u8>) -> Option<(nat, nat, Option<Seq<u8>>)> {
    match fields(ts) {
        Some((min, sec)) => match (unsigned_value(min), unsigned_value(before(sec, 0x2e))) {
            (Some(m), Some(s)) => Some((m, s, fraction(sec))),
            _ => None,
        },
        None => None,
    }
}

/// The time, in milliseconds, that the bytes of a timestamp name.
pub open spec fn timestamp_ms(ts: Seq<u8>) -> Option<nat> {
    match clock_reading(ts) {
        Some((m, s, None)) => Some(m * 60_000 + s * 1_000),
        Some((m, s, Some(frac))) => match fraction_ms(frac) {
            Some(ms) => Some(m * 60_000 + s * 1_000 + ms),
            None => None,
        },
        None => None,
    }
}

/// A timestamp can be read: where minutes and seconds are numbers, its fraction
/// can be cut to three bytes and the time is below 2^64 milliseconds.
pub open spec fn timestamp_readable(ts: Seq<u8>) -> bool {
    &&& clock_reading(ts) matches Some((_, _, Some(frac))) ==> fraction_readable(frac)
    &&& timestamp_ms(ts) matches Some(ms) ==> ms <= u64::MAX
}

/// What the bytes of a timestamp say.
pub enum Timestamp {
    /// They are no timestamp.
    Malformed,
    /// The time in milliseconds.
    At(u64),
    /// The fraction cannot be cut, or the time is out of range.
    Unreadable,
}

/// The part of `b` before `at`, and what follows the byte there.
fn cut(b: &[u8], at: usize) -> (r: (&[u8], &[u8]))
    requires
        at < b.len(),
    ensures
        r.0@ == b@.take(at as int),
        r.1@ == b@.skip(at + 1),
{
    let left: &[u8] = vstd::slice::slice_subrange(b, 0, at);
    let right: &[u8] = vstd::slice::slice_subrange(b, at + 1, b.len());
    assert(left@ =~= b@.take(at as int));
    assert(right@ =~= b@.skip(at + 1));
    (left, right)
}

/// Reads a fraction that can be cut to three bytes.
fn read_fraction(frac: &[u8]) -> (r: Option<u64>)
    requires
        fraction_readable(frac@),
    ensures
        match r {
            Some(ms) => fraction_ms(frac@) == Some(ms as nat) && ms < 1000,
            None => fraction_ms(frac@) is None,
        },
{
    let digits: &[u8] = if frac.len() > 3 {
        vstd::slice::slice_subrange(frac, 0, 3)
    } else {
        frac
    };
    assert(frac@.len() > 3 ==> digits@ =~= frac@.take(3));
    match parse_unsigned(digits) {
        Some(v) => {
            proof {
                lemma_short_value(digits@);
            }
            if frac.len() == 1 {
                Some(v * 100)
            } else if frac.len() == 2 {
                Some(v * 10)
            } else {
                Some(v)
            }
        },
        None => None,
    }
}

/// Numbers of one, two and three digits are below ten, a hundred and a thousand.
pub proof fn lemma_short_value(b: Seq<u8>)
    requires
        b.len() <= 3,
    ensures
        unsigned_value(b) matches Some(v) ==> {
            &&& b.len() == 1 ==> v < 10
            &&& b.len() == 2 ==> v < 100
            &&& v < 1000
        },
{
    let d = crate::text::unsigned_digits(b);
    if unsigned_value(b) is Some {
        reveal_with_fuel(crate::text::digits_value, 4);
        assert forall|i: int| 0 <= i < d.len() implies crate::text::is_digit(d[i]) by {}
        if d.len() == 1 {
            assert(crate::text::is_digit(d[0]));
        } else if d.len() == 2 {
            assert(crate::text::is_digit(d[0]) && crate::text::is_digit(d[1]));
            assert(d.drop_last()[0] == d[0]);
        } else {
            assert(crate::text::is_digit(d[0]) && crate::text::is_digit(d[1])
                && crate::text::is_digit(d[2]));
            assert(d.drop_last()[1] == d[1]);
            assert(d.drop_last().drop_last()[0] == d[0]);
        }
    }
}

/// Reads a timestamp from its bytes.
pub fn read_timestamp(ts: &[u8]) -> (r: Timestamp)
    ensures
        match r {
            Timestamp::Malformed => timestamp_readable(ts@) && timestamp_ms(ts@) is None,
            Timestamp::At(ms) => timestamp_readable(ts@) && timestamp_ms(ts@) == Some(ms as nat),
            Timestamp::Unreadable => !timestamp_readable(ts@),
        },
{
    let colon: usize = find_byte(ts, 0x3a);
    proof {
        lemma_first_index_bounds(ts@, 0x3au8);
    }
    if colon == ts.len() {
        return Timestamp::Malformed;
    }
    let (min, sec) = cut(ts, colon);
    proof {
        lemma_first_index_bounds(sec@, 0x3au8);
        lemma_first_index_bounds(sec@, 0x2eu8);
    }
    if find_byte(sec, 0x3a) < sec.len() {
        return Timestamp::Malformed;
    }
    let point: usize = find_byte(sec, 0x2e);
    let whole: &[u8] = vstd::slice::slice_subrange(sec, 0, point);
    assert(whole@ =~= before(sec@, 0x2e));
    let m: u64 = match parse_unsigned(min) {
        Some(v) => v,
        None => return Timestamp::Malformed,
    };
    let s: u64 = match parse_unsigned(whole) {
        Some(v) => v,
        None => return Timestamp::Malformed,
    };
    let mut ms: u64 = 0;
    if point < sec.len() {
        let (_, tail) = cut(sec, point);
        let end: usize = find_byte(tail, 0x2e);
        let frac: &[u8] = vstd::slice::slice_subrange(tail, 0, end);
        assert(frac@ =~= before(tail@, 0x2e));
        if frac.len() == 0 || (frac.len() > 3 && frac[3] >= 0x80 && frac[3] <= 0xbf) {
            return Timestamp::Unreadable;
        }
        match read_fraction(frac) {
            Some(v) => {
                ms = v;
            },
            None => return Timestamp::Malformed,
        }
    }
    let total: u128 = m as u128 * 60_000 + s as u128 * 1_000 + ms as u128;
    if total <= u64::MAX as u128 {
        Timestamp::At(total as u64)
    } else {
        Timestamp::Unreadable
    }
}

/// The time, in milliseconds, that a timestamp such as `01:02.50` names.
pub fn parse_timestamp(ts: &str) -> (r: Option<u64>)
    requires
        timestamp_readable(encode_utf8(ts@)),
    ensures
        match r {
            Some(ms) => timestamp_ms(encode_utf8(ts@)) == Some(ms as nat),
            None => timestamp_ms(encode_utf8(ts@)) is None,
        },
{
    match read_timestamp(ts.as_bytes()) {
        Timestamp::At(ms) => Some(ms),
        _ => None,
    }
}

/// A line of lyrics and when it starts.
#[verifier::ext_equal]
pub struct TimedText {
    pub text: Seq<char>,
    pub start_ms: nat,
}

/// The timestamp of an LRC line and its text. `None` where the line does not
/// open with a bracket, where the bracket is not closed, and where no text
/// follows.
pub open spec fn line_parts(line: Seq<char>) -> Option<(Seq<char>, Seq<char>)> {
    let l = trimmed(line);
    let text = trimmed(after(l, ']'));
    if l.len() > 0 && l[0] == '[' && l.contains(']') && text.len() > 0 {
        Some((before(l, ']').drop_first(), text))
    } else {
        None
    }
}

/// What a line of an LRC file gives: one timed text, or nothing.
pub open spec fn timed_line(line: Seq<char>) -> Seq<TimedText> {
    match line_parts(line) {
        Some((stamp, text)) => match timestamp_ms(encode_utf8(stamp)) {
            Some(ms) => seq![TimedText { text, start_ms: ms }],
            None => Seq::empty(),
        },
        None => Seq::empty(),
    }
}

/// What an LRC file gives, line after line.
pub open spec fn timed_lines(lrc: Seq<char>) -> Seq<TimedText>
    decreases lrc.len(),
{
    if lrc.contains('\n') {
        proof {
            lemma_first_index_bounds(lrc, '\n');
        }
        timed_line(before(lrc, '\n')) + timed_lines(after(lrc, '\n'))
    } else {
        timed_line(lrc)
    }
}

/// The timestamp of a line, where it has one and a text, can be read.
pub open spec fn line_readable(line: Seq<char>) -> bool {
    line_parts(line) matches Some((stamp, _)) ==> timestamp_readable(encode_utf8(stamp))
}

/// Every line of an LRC file is readable.
pub open spec fn lines_readable(lrc: Seq<char>) -> bool
    decreases lrc.len(),
{
    if lrc.contains('\n') {
        proof {
            lemma_first_index_bounds(lrc, '\n');
        }
        line_readable(before(lrc, '\n')) && lines_readable(after(lrc, '\n'))
    } else {
        line_readable(lrc)
    }
}

/// An LRC file can be read: each of its lines can, and the end of the last one
/// is below 2^64 milliseconds.
pub open spec fn lrc_readable(lrc: Seq<char>) -> bool {
    &&& lines_readable(lrc)
    &&& timed_lines(lrc).len() > 0 ==> timed_lines(lrc).last().start_ms + LAST_LINE_MS <= u64::MAX
}

/// When the line at `i` ends: when the next one starts, and for the last one
/// after a fixed time.
pub open spec fn line_end(timed: Seq<TimedText>, i: int) -> nat {
    if i + 1 < timed.len() {
        timed[i + 1].start_ms
    } else {
        timed[i].start_ms + LAST_LINE_MS as nat
    }
}

/// The lyrics of an LRC file: its timed texts, each with its end.
pub open spec fn lrc_lines(lrc: Seq<char>) -> Seq<LyricLineView> {
    let timed = timed_lines(lrc);
    Seq::new(
        timed.len(),
        |i: int|
            LyricLineView {
                text: timed[i].text,
                start_ms: timed[i].start_ms as u64,
                end_ms: line_end(timed, i) as u64,
                words: Seq::empty(),
            },
    )
}

/// What a line of an LRC file says.
enum LineReading {
    Nothing,
    Timed(LyricLine),
    Unreadable,
}

/// Reads one line; the end of a timed line is left at zero.
fn read_line(line: &[char]) -> (r: LineReading)
    ensures
        match r {
            LineReading::Nothing => line_readable(line@) && timed_line(line@).len() == 0,
            LineReading::Timed(l) => {
                &&& line_readable(line@)
                &&& l.words@.len() == 0
                &&& timed_line(line@) == seq![
                    TimedText { text: l.text@, start_ms: l.start_ms as nat },
                ]
            },
            LineReading::Unreadable => !line_readable(line@),
        },
{
    let l: &[char] = trim(line);
    if l.len() == 0 || l[0] != '[' {
        return LineReading::Nothing;
    }
    let close: usize = find_char(l, ']');
    proof {
        lemma_first_index_bounds(l@, ']');
    }
    if close == l.len() {
        return LineReading::Nothing;
    }
    assert(close > 0);
    let stamp: &[char] = vstd::slice::slice_subrange(l, 1, close);
    assert(stamp@ =~= before(l@, ']').drop_first());
    let rest: &[char] = vstd::slice::slice_subrange(l, close + 1, l.len());
    assert(rest@ =~= after(l@, ']'));
    let text: &[char] = trim(rest);
    if text.len() == 0 {
        return LineReading::Nothing;
    }
    let stamp_text: String = string_of(stamp);
    match read_timestamp(stamp_text.as_str().as_bytes()) {
        Timestamp::Malformed => LineReading::Nothing,
        Timestamp::Unreadable => LineReading::Unreadable,
        Timestamp::At(ms) => LineReading::Timed(
            LyricLine { text: string_of(text), start_ms: ms, end_ms: 0, words: Vec::new() },
        ),
    }
}

/// The timed texts that lines hold, their ends apart.
spec fn as_timed(lines: Seq<LyricLine>) -> Seq<TimedText> {
    lines.map_values(|l: LyricLine| TimedText { text: l.text@, start_ms: l.start_ms as nat })
}

/// Reads the lines of an LRC file; their ends are left at zero. `None` where a
/// line cannot be read.
fn read_lines(lrc: &[char]) -> (r: Option<Vec<LyricLine>>)
    ensures
        r is Some <==> lines_readable(lrc@),
        r matches Some(lines) ==> {
            &&& as_timed(lines@) == timed_lines(lrc@)
            &&& forall|i: int| 0 <= i < lines@.len() ==> (#[trigger] lines@[i]).words@.len() == 0
        },
{
    let mut lines: Vec<LyricLine> = Vec::new();
    let mut rest: &[char] = lrc;
    loop
        invariant
            timed_lines(lrc@) == as_timed(lines@) + timed_lines(rest@),
            lines_readable(lrc@) == lines_readable(rest@),
            forall|i: int| 0 <= i < lines@.len() ==> (#[trigger] lines@[i]).words@.len() == 0,
        decreases rest@.len(),
    {
        let end: usize = find_char(rest, '\n');
        proof {
            lemma_first_index_bounds(rest@, '\n');
        }
        let line: &[char] = vstd::slice::slice_subrange(rest, 0, end);
        let last: bool = end == rest.len();
        assert(line@ =~= before(rest@, '\n'));
        assert(last ==> line@ =~= rest@);
        let ghost found = as_timed(lines@);
        match read_line(line) {
            LineReading::Nothing => {},
            LineReading::Timed(l) => {
                lines.push(l);
            },
            LineReading::Unreadable => {
                return None;
            },
        }
        assert(as_timed(lines@) =~= found + timed_line(line@));
        if last {
            return Some(lines);
        }
        let next: &[char] = vstd::slice::slice_subrange(rest, end + 1, rest.len());
        assert(next@ =~= after(rest@, '\n'));
        assert(found + timed_lines(rest@) =~= as_timed(lines@) + timed_lines(next@));
        rest = next;
    }
}

/// Reads an LRC file. `None` where it cannot be read.
pub fn try_parse_lrc(lrc: &str) -> (r: Option<Vec<LyricLine>>)
    ensures
        r is Some <==> lrc_readable(lrc@),
        r matches Some(lines) ==> lines_view(lines@) == lrc_lines(lrc@),
{
    let chars: Vec<char> = chars_of(lrc);
    let mut lines: Vec<LyricLine> = match read_lines(chars.as_slice()) {
        Some(lines) => lines,
        None => return None,
    };
    let ghost timed = timed_lines(lrc@);
    let n: usize = lines.len();
    assert forall|i: int| 0 <= i < n implies timed[i].text == (#[trigger] lines@[i]).text@
        && timed[i].start_ms == lines@[i].start_ms by {
        assert(as_timed(lines@)[i] == timed[i]);
    }
    if n > 0 && lines[n - 1].start_ms > u64::MAX - LAST_LINE_MS {
        return None;
    }
    let mut i: usize = 0;
    while i < n
        invariant
            i <= n,
            n == lines@.len(),
            n == timed.len(),
            n > 0 ==> timed.last().start_ms + LAST_LINE_MS <= u64::MAX,
            forall|j: int|
                0 <= j < n ==> {
                    &&& timed[j].text == (#[trigger] lines@[j]).text@
                    &&& timed[j].start_ms == lines@[j].start_ms
                    &&& lines@[j].words@.len() == 0
                    &&& j < i ==> lines@[j].end_ms == line_end(timed, j)
                },
        decreases n - i,
    {
        let end: u64 = if i + 1 < n {
            lines[i + 1].start_ms
        } else {
            lines[i].start_ms + LAST_LINE_MS
        };
        lines[i].end_ms = end;
        i = i + 1;
    }
    assert forall|j: int| 0 <= j < n implies lines_view(lines@)[j] == lrc_lines(lrc@)[j] by {
        assert(lines@[j].words@.map_values(|w: WordInfo| w@) =~= Seq::<WordInfoView>::empty());
    }
    assert(lines_view(lines@) =~= lrc_lines(lrc@));
    Some(lines)
}

/// Reads an LRC file that can be read.
pub fn parse_lrc(lrc: &str) -> (lines: Vec<LyricLine>)
    requires
        lrc_readable(lrc@),
    ensures
        lines_view(lines@) == lrc_lines(lrc@),
{
    match try_parse_lrc(lrc) {
        Some(lines) => lines,
        None => Vec::new(),
    }
}

/// The times in a file whose lines can be read are below 2^64 milliseconds.
pub proof fn lemma_times_in_range(lrc: Seq<char>, i: int)
    requires
        lines_readable(lrc),
        0 <= i < timed_lines(lrc).len(),
    ensures
        timed_lines(lrc)[i].start_ms <= u64::MAX,
    decreases lrc.len(),
{
    if lrc.contains('\n') {
        lemma_first_index_bounds(lrc, '\n');
        let n = timed_line(before(lrc, '\n')).len();
        if i >= n {
            lemma_times_in_range(after(lrc, '\n'), i - n);
        }
    }
}

/// The lines of an LRC file follow one another: each ends when the next starts,
/// and the last one after a fixed time.
pub proof fn law_lines_are_chained(lrc: Seq<char>)
    requires
        lrc_readable(lrc),
    ensures
        forall|i: int|
            0 <= i < lrc_lines(lrc).len() - 1 ==> (#[trigger] lrc_lines(lrc)[i]).end_ms
                == lrc_lines(lrc)[i + 1].start_ms,
        lrc_lines(lrc).len() > 0 ==> lrc_lines(lrc).last().end_ms
            == lrc_lines(lrc).last().start_ms + LAST_LINE_MS,
{
    let timed = timed_lines(lrc);
    assert forall|i: int| 0 <= i < lrc_lines(lrc).len() - 1 implies (#[trigger] lrc_lines(
        lrc,
    )[i]).end_ms == lrc_lines(lrc)[i + 1].start_ms by {
        lemma_times_in_range(lrc, i + 1);
    }
    if timed.len() > 0 {
        lemma_times_in_range(lrc, timed.len() - 1);
    }
}

/// What one file gives, followed by another on a new line, is what the first
/// gives and what the second gives.
pub proof fn law_files_are_joined(first: Seq<char>, second: Seq<char>)
    ensures
        timed_lines(first + seq!['\n'] + second) == timed_lines(first) + timed_lines(second),
    decreases first.len(),
{
    let both = first + seq!['\n'] + second;
    lemma_first_index_bounds(first, '\n');
    assert(both[first.len() as int] == '\n');
    let k = first_index(first, '\n');
    assert forall|j: int| 0 <= j < k implies both[j] != '\n' by {
        assert(both[j] == first[j]);
    }
    lemma_first_index(both, '\n', k);
    lemma_first_index_bounds(both, '\n');
    assert(before(both, '\n') =~= before(first, '\n'));
    if first.contains('\n') {
        let rest = after(first, '\n');
        assert(after(both, '\n') =~= rest + seq!['\n'] + second);
        law_files_are_joined(rest, second);
        assert(timed_lines(both) =~= timed_lines(first) + timed_lines(second));
    } else {
        assert(before(first, '\n') =~= first);
        assert(after(both, '\n') =~= second);
    }
}

/// A carriage return at the end of a line is of no account.
pub proof fn law_carriage_return_is_dropped(line: Seq<char>)
    ensures
        timed_line(line.push('\r')) == timed_line(line),
{
    law_trailing_space_is_dropped(line, '\r');
}

/// Every line of the lyrics has a text, which begins and ends with something
/// else than white space and holds no line break, and no words of its own.
pub proof fn law_lines_have_text(lrc: Seq<char>)
    ensures
        forall|i: int|
            0 <= i < lrc_lines(lrc).len() ==> {
                let line = #[trigger] lrc_lines(lrc)[i];
                &&& line.text.len() > 0
                &&& !is_white_space(line.text[0])
                &&& !is_white_space(line.text.last())
                &&& !line.text.contains('\n')
                &&& line.words.len() == 0
            },
{
    assert forall|i: int| 0 <= i < lrc_lines(lrc).len() implies {
        let line = #[trigger] lrc_lines(lrc)[i];
        &&& line.text.len() > 0
        &&& !is_white_space(line.text[0])
        &&& !is_white_space(line.text.last())
        &&& !line.text.contains('\n')
        &&& line.words.len() == 0
    } by {
        lemma_timed_text(lrc, i);
    }
}

/// The text of a timed line begins and ends with something else than white
/// space, and holds no line break.
pub proof fn lemma_timed_text(lrc: Seq<char>, i: int)
    requires
        0 <= i < timed_lines(lrc).len(),
    ensures
        ({
            let text = timed_lines(lrc)[i].text;
            &&& text.len() > 0
            &&& !is_white_space(text[0])
            &&& !is_white_space(text.last())
            &&& !text.contains('\n')
        }),
    decreases lrc.len(),
{
    let line = before(lrc, '\n');
    lemma_first_index_bounds(lrc, '\n');
    assert(!lrc.contains('\n') ==> line =~= lrc);
    let l = trimmed(line);
    let rest = after(l, ']');
    law_trimmed_ends(rest);
    if i < timed_line(line).len() {
        assert(!line.contains('\n'));
        lemma_first_index_bounds(l, ']');
        lemma_trimmed_within(line, '\n');
        lemma_trimmed_within(rest, '\n');
        if rest.contains('\n') {
            let j = rest.index_of('\n');
            assert(l[first_index(l, ']') + 1 + j] == '\n');
        }
    } else {
        lemma_timed_text(after(lrc, '\n'), i - timed_line(line).len());
    }
}

/// A query of the lyrics service.
pub struct LyricsRequest {
    pub url: &'static str,
    pub query: Vec<(String, String)>,
    pub user_agent: &'static str,
}

/// The query for the lyrics of a track.
pub fn lyrics_request(title: &str, artist: &str, duration_secs: u64) -> (r: LyricsRequest)
    ensures
        r.url@ == "https://lrclib.net/api/get"@,
        r.url@ == LRCLIB_API@,
        pairs_view(r.query@) == seq![
            ("track_name"@, title@),
            ("artist_name"@, artist@),
            ("duration"@, decimal_digits(duration_secs as nat)),
        ],
        r.user_agent@ == "Playa/0.1.0"@,
        r.user_agent@ == USER_AGENT@,
{
    let mut query: Vec<(String, String)> = Vec::new();
    query.push(("track_name".to_owned(), title.to_owned()));
    query.push(("artist_name".to_owned(), artist.to_owned()));
    query.push(("duration".to_owned(), decimal(duration_secs)));
    assert(pairs_view(query@) =~= seq![
        ("track_name"@, title@),
        ("artist_name"@, artist@),
        ("duration"@, decimal_digits(duration_secs as nat)),
    ]);
    LyricsRequest { url: LRCLIB_API, query, user_agent: USER_AGENT }
}

/// The body of an answer of the lyrics service.
pub struct LrclibResponse {
    pub synced_lyrics: Option<String>,
}

/// The LRC file that a reply of the lyrics service brings.
pub open spec fn reply_lrc(reply: Reply<LrclibResponse>) -> Option<Seq<char>> {
    match accepted_body(reply) {
        Some(body) => match body.synced_lyrics {
            Some(lrc) => Some(lrc@),
            None => None,
        },
        None => None,
    }
}

/// What a reply of the lyrics service amounts to.
pub enum FetchedLyrics {
    /// The lines, at least one.
    Lines(Vec<LyricLine>),
    /// There are no synced lyrics.
    Absent,
    /// There is an LRC file that cannot be read.
    Unreadable,
}

/// The lyrics that a reply of the lyrics service brings. An LRC file without a
/// timed line counts as none.
pub fn lyrics_from_reply(reply: Reply<LrclibResponse>) -> (r: FetchedLyrics)
    ensures
        match reply_lrc(reply) {
            Some(lrc) => if !lrc_readable(lrc) {
                r is Unreadable
            } else if lrc_lines(lrc).len() == 0 {
                r is Absent
            } else {
                r matches FetchedLyrics::Lines(lines) && lines_view(lines@) == lrc_lines(lrc)
            },
            None => r is Absent,
        },
{
    let lrc: String = match accepted(reply) {
        Some(body) => match body.synced_lyrics {
            Some(lrc) => lrc,
            None => return FetchedLyrics::Absent,
        },
        None => return FetchedLyrics::Absent,
    };
    match try_parse_lrc(lrc.as_str()) {
        Some(lines) => {
            assert(lines_view(lines@).len() == lines@.len());
            if lines.len() == 0 {
                FetchedLyrics::Absent
            } else {
                FetchedLyrics::Lines(lines)
            }
        },
        None => FetchedLyrics::Unreadable,
    }
}

} // verus!
