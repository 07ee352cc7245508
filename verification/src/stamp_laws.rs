//! Which bytes are a timestamp, what time they name, and which lines of an LRC
//! file give a timed text.

use vstd::prelude::*;
use vstd::utf8::encode_utf8;

use crate::events::LyricLineView;
use crate::http::Reply;
use crate::lyrics::{
    lemma_times_in_range, line_parts, line_readable, lines_readable, lrc_lines, lrc_readable,
    reply_lrc, timed_line, timed_lines, timestamp_ms, timestamp_readable, LrclibResponse,
    TimedText,
};
use crate::text::{
    after, all_digits, before, digits_value, first_index, is_blank, is_white_space,
    law_blanks_around_are_dropped, law_cut_at_the_first, law_digits_are_read,
    law_leading_zero_is_read_over, lemma_first_index_bounds, lemma_joined_parts,
    lemma_trimmed_whole, lemma_trimmed_within, trim_end, trimmed, unsigned_value,
};

verus! {

/// A timestamp without a point names its minutes and its seconds, where both are
/// numbers, and can then be read where that is below 2^64 milliseconds.
pub proof fn law_timestamp_without_point(m: Seq<u8>, s: Seq<u8>)
    requires
        !m.contains(0x3a),
        !s.contains(0x3a),
        !s.contains(0x2e),
    ensures
        ({
            let ts = m + seq![0x3au8] + s;
            match (unsigned_value(m), unsigned_value(s)) {
                (Some(min), Some(sec)) => {
                    &&& timestamp_ms(ts) == Some(min * 60_000 + sec * 1_000)
                    &&& timestamp_readable(ts) <==> min * 60_000 + sec * 1_000 <= u64::MAX
                },
                _ => timestamp_ms(ts) is None && timestamp_readable(ts),
            }
        }),
{
    lemma_joined_parts(m, 0x3au8, s);
    law_cut_at_the_first(s, 0x2eu8);
}

/// A timestamp with a point names its minutes, its seconds and its fraction: what
/// stands between the first point and the next one. Minutes and seconds are to be
/// numbers. One digit of the fraction counts tenths, two hundredths, and three
/// thousandths; what follows the third is left out. It cannot be read where the
/// fraction is empty, where the third byte of the fraction ends inside a
/// character, and where the time is not below 2^64 milliseconds.
pub proof fn law_timestamp_with_fraction(m: Seq<u8>, s: Seq<u8>, f: Seq<u8>, rest: Seq<u8>)
    requires
        !m.contains(0x3a),
        !s.contains(0x3a),
        !f.contains(0x3a),
        !rest.contains(0x3a),
        !s.contains(0x2e),
        !f.contains(0x2e),
        rest.len() == 0 || rest[0] == 0x2e,
    ensures
        ({
            let ts = m + seq![0x3au8] + s + seq![0x2eu8] + f + rest;
            let digits = if f.len() > 3 {
                f.take(3)
            } else {
                f
            };
            let unit: nat = if f.len() == 1 {
                100
            } else if f.len() == 2 {
                10
            } else {
                1
            };
            match (unsigned_value(m), unsigned_value(s)) {
                (Some(min), Some(sec)) => match unsigned_value(digits) {
                    Some(v) => {
                        let ms = min * 60_000 + sec * 1_000 + v * unit;
                        &&& timestamp_ms(ts) == Some(ms)
                        &&& timestamp_readable(ts) <==> f.len() > 0 && !(f.len() > 3 && 0x80
                            <= f[3] <= 0xbf) && ms <= u64::MAX
                    },
                    None => {
                        &&& timestamp_ms(ts) is None
                        &&& timestamp_readable(ts) <==> f.len() > 0 && !(f.len() > 3 && 0x80
                            <= f[3] <= 0xbf)
                    },
                },
                _ => timestamp_ms(ts) is None && timestamp_readable(ts),
            }
        }),
{
    let ts = m + seq![0x3au8] + s + seq![0x2eu8] + f + rest;
    let sec = s + seq![0x2eu8] + (f + rest);
    assert(ts =~= m + seq![0x3au8] + sec);
    lemma_joined_parts(m, 0x3au8, sec);
    assert forall|j: int| 0 <= j < sec.len() implies sec[j] != 0x3au8 by {
        let n = s.len();
        if j < n {
            assert(s.contains(s[j]));
        } else if n < j <= n + f.len() {
            assert(f.contains(f[j - n - 1]));
        } else if j > n + f.len() {
            assert(rest.contains(rest[j - n - 1 - f.len()]));
        }
    }
    lemma_joined_parts(s, 0x2eu8, f + rest);
    if rest.len() == 0 {
        assert(f + rest =~= f);
        law_cut_at_the_first(f, 0x2eu8);
    } else {
        assert(f + rest =~= f + seq![0x2eu8] + rest.drop_first());
        lemma_joined_parts(f, 0x2eu8, rest.drop_first());
    }
}

/// What has no colon, or more than one, is no timestamp.
pub proof fn law_timestamp_has_one_colon(left: Seq<u8>, mid: Seq<u8>, right: Seq<u8>)
    ensures
        !left.contains(0x3a) ==> timestamp_ms(left) is None && timestamp_readable(left),
        timestamp_ms(left + seq![0x3au8] + mid + seq![0x3au8] + right) is None,
        timestamp_readable(left + seq![0x3au8] + mid + seq![0x3au8] + right),
{
    let ts = left + seq![0x3au8] + mid + seq![0x3au8] + right;
    let a = left.len() as int;
    let b = a + 1 + mid.len();
    assert(ts[a] == 0x3a && ts[b] == 0x3a);
    lemma_first_index_bounds(ts, 0x3au8);
    let k = first_index(ts, 0x3au8);
    assert(k <= a);
    assert(after(ts, 0x3au8)[b - k - 1] == 0x3a);
}

/// Zeros before the minutes or the seconds of a timestamp, where these are
/// digits, change neither the time it names nor whether it can be read.
pub proof fn law_leading_zero_changes_no_time(m: Seq<u8>, s: Seq<u8>, rest: Seq<u8>)
    requires
        all_digits(m),
        all_digits(s),
        m.len() > 0,
        s.len() > 0,
        rest.len() == 0 || rest[0] == 0x2e,
    ensures
        ({
            let ts = m + seq![0x3au8] + s + rest;
            let more_m = seq![0x30u8] + m + seq![0x3au8] + s + rest;
            let more_s = m + seq![0x3au8] + (seq![0x30u8] + s) + rest;
            &&& timestamp_ms(more_m) == timestamp_ms(ts)
            &&& timestamp_ms(more_s) == timestamp_ms(ts)
            &&& timestamp_readable(more_m) == timestamp_readable(ts)
            &&& timestamp_readable(more_s) == timestamp_readable(ts)
        }),
{
    law_leading_zero_is_read_over(m);
    law_leading_zero_is_read_over(s);
    let zm = seq![0x30u8] + m;
    let zs = seq![0x30u8] + s;
    lemma_zero_before_digits(m);
    lemma_zero_before_digits(s);
    if rest.contains(0x3a) {
        law_cut_at_the_first(rest, 0x3au8);
        lemma_two_colons(m, s, rest);
        lemma_two_colons(zm, s, rest);
        lemma_two_colons(m, zs, rest);
    } else if rest.len() == 0 {
        assert(m + seq![0x3au8] + s + rest =~= m + seq![0x3au8] + s);
        assert(zm + seq![0x3au8] + s + rest =~= zm + seq![0x3au8] + s);
        assert(m + seq![0x3au8] + zs + rest =~= m + seq![0x3au8] + zs);
        law_timestamp_without_point(m, s);
        law_timestamp_without_point(zm, s);
        law_timestamp_without_point(m, zs);
    } else {
        let tail = rest.drop_first();
        let f = before(tail, 0x2eu8);
        lemma_first_index_bounds(tail, 0x2eu8);
        let more = tail.skip(f.len() as int);
        assert(rest =~= seq![0x2eu8] + f + more);
        assert forall|j: int| 0 <= j < tail.len() implies tail[j] != 0x3a by {
            assert(tail[j] == rest[j + 1]);
        }
        assert(m + seq![0x3au8] + s + rest =~= m + seq![0x3au8] + s + seq![0x2eu8] + f + more);
        assert(zm + seq![0x3au8] + s + rest =~= zm + seq![0x3au8] + s + seq![0x2eu8] + f + more);
        assert(m + seq![0x3au8] + zs + rest =~= m + seq![0x3au8] + zs + seq![0x2eu8] + f + more);
        law_timestamp_with_fraction(m, s, f, more);
        law_timestamp_with_fraction(zm, s, f, more);
        law_timestamp_with_fraction(m, zs, f, more);
    }
}

/// Digits, also with a zero before them, hold neither a colon nor a point.
proof fn lemma_zero_before_digits(d: Seq<u8>)
    requires
        all_digits(d),
    ensures
        all_digits(seq![0x30u8] + d),
        !d.contains(0x3a),
        !d.contains(0x2e),
        !(seq![0x30u8] + d).contains(0x3a),
        !(seq![0x30u8] + d).contains(0x2e),
{
    let z = seq![0x30u8] + d;
    assert forall|i: int| 0 <= i < z.len() implies 0x30 <= #[trigger] z[i] <= 0x39 by {
        if i > 0 {
            assert(z[i] == d[i - 1]);
        }
    }
}

/// A second colon behind the seconds.
proof fn lemma_two_colons(m: Seq<u8>, s: Seq<u8>, rest: Seq<u8>)
    requires
        rest.contains(0x3a),
    ensures
        timestamp_ms(m + seq![0x3au8] + s + rest) is None,
        timestamp_readable(m + seq![0x3au8] + s + rest),
{
    law_cut_at_the_first(rest, 0x3au8);
    let left = before(rest, 0x3au8);
    let right = after(rest, 0x3au8);
    law_timestamp_has_one_colon(m, s + left, right);
    assert(m + seq![0x3au8] + s + rest =~= m + seq![0x3au8] + (s + left) + seq![0x3au8] + right);
}

/// Two digits.
pub open spec fn two_digits(n: nat) -> Seq<u8> {
    seq![(0x30 + n / 10) as u8, (0x30 + n % 10) as u8]
}

/// Two digits are read as the number that they write.
proof fn lemma_two_digits(n: nat)
    requires
        n < 100,
    ensures
        all_digits(two_digits(n)),
        unsigned_value(two_digits(n)) == Some(n),
{
    let b = two_digits(n);
    let b1 = b.drop_last();
    assert(digits_value(b1.drop_last()) == 0);
    assert(digits_value(b1) == n / 10);
    assert(digits_value(b) == n);
    law_digits_are_read(b);
}

/// A time of two digits each for minutes, seconds and hundredths is read as that
/// time.
pub proof fn law_two_digit_stamp_is_read(min: nat, sec: nat, hundredths: nat)
    requires
        min < 100,
        sec < 100,
        hundredths < 100,
    ensures
        ({
            let ts = two_digits(min) + seq![0x3au8] + two_digits(sec) + seq![0x2eu8] + two_digits(
                hundredths,
            );
            &&& timestamp_ms(ts) == Some(min * 60_000 + sec * 1_000 + hundredths * 10)
            &&& timestamp_readable(ts)
        }),
{
    lemma_two_digits(min);
    lemma_two_digits(sec);
    lemma_two_digits(hundredths);
    let none = Seq::<u8>::empty();
    law_timestamp_with_fraction(two_digits(min), two_digits(sec), two_digits(hundredths), none);
    assert(two_digits(min) + seq![0x3au8] + two_digits(sec) + seq![0x2eu8] + two_digits(hundredths)
        + none =~= two_digits(min) + seq![0x3au8] + two_digits(sec) + seq![0x2eu8] + two_digits(
        hundredths,
    ));
}

/// A line of a timestamp in brackets and a text gives the text at the time that
/// the timestamp names, whatever the text, and nothing where it names none; it
/// can be read where the timestamp can. Blanks between the two are dropped.
pub proof fn law_stamped_line_is_read(stamp: Seq<char>, gap: Seq<char>, text: Seq<char>)
    requires
        !stamp.contains(']'),
        is_blank(gap),
        text.len() > 0,
        !is_white_space(text[0]),
        !is_white_space(text.last()),
    ensures
        ({
            let line = seq!['['] + stamp + seq![']'] + gap + text;
            &&& line_readable(line) == timestamp_readable(encode_utf8(stamp))
            &&& match timestamp_ms(encode_utf8(stamp)) {
                Some(ms) => timed_line(line) == seq![TimedText { text, start_ms: ms }],
                None => timed_line(line).len() == 0,
            }
        }),
{
    let line = seq!['['] + stamp + seq![']'] + gap + text;
    let open = seq!['['] + stamp;
    assert(line.last() == text.last());
    lemma_trimmed_whole(line);
    lemma_bracket_opens(stamp);
    assert(line =~= open + seq![']'] + (gap + text));
    lemma_joined_parts(open, ']', gap + text);
    lemma_trimmed_whole(text);
    law_blanks_around_are_dropped(gap, text, Seq::empty());
    assert(gap + text + Seq::<char>::empty() =~= gap + text);
    assert(open.drop_first() =~= stamp);
    assert(line_parts(line) == Some((stamp, text)));
}

/// An opening bracket is no closing one.
proof fn lemma_bracket_opens(stamp: Seq<char>)
    requires
        !stamp.contains(']'),
    ensures
        !(seq!['['] + stamp).contains(']'),
{
    let open = seq!['['] + stamp;
    assert forall|j: int| 0 <= j < open.len() implies open[j] != ']' by {
        if j > 0 {
            assert(stamp.contains(stamp[j - 1]));
        }
    }
}

/// Blanks before and behind a line change neither what it gives nor whether it
/// can be read.
pub proof fn law_blanks_around_a_line_are_dropped(
    lead: Seq<char>,
    line: Seq<char>,
    trail: Seq<char>,
)
    requires
        is_blank(lead),
        is_blank(trail),
    ensures
        timed_line(lead + line + trail) == timed_line(line),
        line_readable(lead + line + trail) == line_readable(line),
{
    law_blanks_around_are_dropped(lead, line, trail);
}

/// A line that is blank, begins with something else than a bracket or holds no
/// closing one gives nothing and can be read.
pub proof fn law_other_lines_are_passed_over(line: Seq<char>)
    requires
        is_blank(line) || (!is_white_space(line[0]) && line[0] != '[') || !line.contains(']'),
    ensures
        timed_line(line).len() == 0,
        line_readable(line),
{
    let none = Seq::<char>::empty();
    if is_blank(line) {
        law_blanks_around_are_dropped(line, none, none);
        assert(line + none + none =~= line);
        assert(trimmed(none) == none);
    } else if !line.contains(']') {
        lemma_trimmed_within(line, ']');
    } else if line.len() > 0 {
        lemma_first_is_kept(line);
    }
}

/// A text that does not begin with white space begins the same when it is
/// trimmed.
proof fn lemma_first_is_kept(s: Seq<char>)
    requires
        s.len() > 0,
        !is_white_space(s[0]),
    ensures
        trimmed(s).len() > 0,
        trimmed(s)[0] == s[0],
{
    lemma_trim_end_keeps_first(s);
}

proof fn lemma_trim_end_keeps_first(s: Seq<char>)
    requires
        s.len() > 0,
        !is_white_space(s[0]),
    ensures
        trim_end(s).len() > 0,
        trim_end(s)[0] == s[0],
    decreases s.len(),
{
    if is_white_space(s.last()) {
        lemma_trim_end_keeps_first(s.drop_last());
    }
}

/// A timestamp without a text gives nothing and can be read, whatever it holds.
pub proof fn law_stamp_without_text_is_passed_over(stamp: Seq<char>, gap: Seq<char>)
    requires
        !stamp.contains(']'),
        is_blank(gap),
    ensures
        timed_line(seq!['['] + stamp + seq![']'] + gap).len() == 0,
        line_readable(seq!['['] + stamp + seq![']'] + gap),
{
    let none = Seq::<char>::empty();
    let line = seq!['['] + stamp + seq![']'];
    law_blanks_around_are_dropped(none, line, gap);
    assert(none + line + gap =~= line + gap);
    assert(line.last() == ']');
    lemma_trimmed_whole(line);
    lemma_bracket_opens(stamp);
    assert(line + none =~= line);
    lemma_joined_parts(seq!['['] + stamp, ']', none);
    assert(trimmed(none) == none);
}

/// A file of one line gives what the line gives, and can be read where it can.
pub proof fn law_one_line_is_a_file(line: Seq<char>)
    requires
        !line.contains('\n'),
    ensures
        timed_lines(line) == timed_line(line),
        lines_readable(line) == line_readable(line),
{
}

/// The lines of two files, one behind the other, can be read where those of both
/// can.
pub proof fn law_joined_files_are_readable(first: Seq<char>, second: Seq<char>)
    ensures
        lines_readable(first + seq!['\n'] + second) <==> lines_readable(first) && lines_readable(
            second,
        ),
    decreases first.len(),
{
    let both = first + seq!['\n'] + second;
    law_cut_at_the_first(first, '\n');
    lemma_first_index_bounds(first, '\n');
    let line = before(first, '\n');
    if first.contains('\n') {
        let rest = after(first, '\n');
        assert(both =~= line + seq!['\n'] + (rest + seq!['\n'] + second));
        lemma_joined_parts(line, '\n', rest + seq!['\n'] + second);
        law_joined_files_are_readable(rest, second);
    } else {
        lemma_joined_parts(first, '\n', second);
    }
}

/// The lyrics of a file are its timed texts, in order: each with its text and its
/// start, and shown until the next one starts; the last one for five seconds.
pub proof fn law_lyrics_are_the_timed_texts(lrc: Seq<char>)
    requires
        lines_readable(lrc),
    ensures
        lrc_readable(lrc) <==> (timed_lines(lrc).len() > 0 ==> timed_lines(lrc).last().start_ms
            + 5_000 <= u64::MAX),
        lrc_readable(lrc) ==> {
            let timed = timed_lines(lrc);
            let lines = lrc_lines(lrc);
            &&& lines.len() == timed.len()
            &&& forall|i: int|
                0 <= i < lines.len() ==> {
                    let line: LyricLineView = #[trigger] lines[i];
                    &&& line.text == timed[i].text
                    &&& line.start_ms == timed[i].start_ms
                    &&& i + 1 < lines.len() ==> line.end_ms == timed[i + 1].start_ms
                    &&& i + 1 == lines.len() ==> line.end_ms == timed[i].start_ms + 5_000
                    &&& line.words.len() == 0
                }
        },
{
    let timed = timed_lines(lrc);
    assert forall|i: int| 0 <= i < timed.len() implies timed[i].start_ms <= u64::MAX by {
        lemma_times_in_range(lrc, i);
    }
}

/// A file whose lines cannot all be read cannot be read.
pub proof fn law_unreadable_line_spoils_the_file(lrc: Seq<char>)
    ensures
        !lines_readable(lrc) ==> !lrc_readable(lrc),
{
}

/// A reply brings a file exactly when the service answered with a code of success
/// and a body that holds one, and it brings that file.
pub proof fn law_reply_brings_the_file(reply: Reply<LrclibResponse>)
    ensures
        match reply {
            Reply::Answer { status, body: Some(b) } => match b.synced_lyrics {
                Some(lrc) => if 200 <= status < 300 {
                    reply_lrc(reply) == Some(lrc@)
                } else {
                    reply_lrc(reply) is None
                },
                None => reply_lrc(reply) is None,
            },
            _ => reply_lrc(reply) is None,
        },
{
}

} // verus!
